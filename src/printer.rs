use vstd::prelude::*;

use crate::errors::{PrinterError, ValidationError};
use crate::types::{Font, GraphicsMode, PrinterStatus};

verus! {

/// The low byte of a 16-bit argument.
pub open spec fn low_byte(v: u16) -> u8 {
    (v % 256) as u8
}

/// The high byte of a 16-bit argument.
pub open spec fn high_byte(v: u16) -> u8 {
    (v / 256) as u8
}

/// What `write_text` sends for `text`: ASCII characters as they are, anything else as `?`.
pub open spec fn ascii_bytes(text: Seq<char>) -> Seq<u8> {
    Seq::new(text.len(), |i: int| if (text[i] as u32) < 128 { text[i] as u32 as u8 } else { 63u8 })
}

/// How an attempt to read the printer's status byte ended.
pub enum StatusReply {
    /// The byte arrived.
    Byte(u8),
    /// Nothing arrived within the given number of milliseconds.
    TimedOut(u64),
    /// The device closed the connection.
    Closed,
    /// Another failure, described.
    Failed(String),
}

/// The status, or the error, that a reply to a status query means.
pub fn status_from_reply(reply: StatusReply) -> (r: Result<PrinterStatus, PrinterError>)
    ensures
        reply matches StatusReply::Byte(b) ==> (r matches Ok(s) && s == PrinterStatus {
            online: b & 0x08 == 0,
            paper_out: b & 0x20 != 0,
            error: b & 0x40 != 0,
        }),
        reply matches StatusReply::TimedOut(ms) ==> r == Err::<PrinterStatus, PrinterError>(
            PrinterError::Timeout { timeout_ms: ms },
        ),
        reply is Closed ==> r == Err::<PrinterStatus, PrinterError>(PrinterError::Disconnected),
        reply matches StatusReply::Failed(m) ==> (r matches Err(PrinterError::Io { message }) && message == m),
{
    match reply {
        StatusReply::Byte(b) => Ok(PrinterStatus::from_byte(b)),
        StatusReply::TimedOut(ms) => Err(PrinterError::Timeout { timeout_ms: ms }),
        StatusReply::Closed => Err(PrinterError::Disconnected),
        StatusReply::Failed(message) => Err(PrinterError::Io { message }),
    }
}

/// An ESC/P2 command encoder: each command appends its bytes to a pending
/// buffer, which the caller hands to the device.
pub struct Printer {
    output: Vec<u8>,
    max_graphics_width: u16,
}

impl Printer {
    /// The bytes queued for the device.
    pub closed spec fn pending(&self) -> Seq<u8> {
        self.output@
    }

    /// The widest bit image the printer accepts.
    pub closed spec fn spec_max_graphics_width(&self) -> u16 {
        self.max_graphics_width
    }

    /// A printer with nothing queued.
    pub fn new(max_graphics_width: u16) -> (p: Printer)
        ensures
            p.pending() == Seq::<u8>::empty(),
            p.spec_max_graphics_width() == max_graphics_width,
    {
        Printer { output: Vec::new(), max_graphics_width }
    }

    /// Queues raw bytes.
    pub fn send(&mut self, data: &[u8]) -> (r: Result<(), PrinterError>)
        ensures
            final(self).pending() == old(self).pending() + data@,
            final(self).spec_max_graphics_width() == old(self).spec_max_graphics_width(),
            r is Ok,
    {
        let mut i: usize = 0;
        while i < data.len()
            invariant
                i <= data@.len(),
                self.output@ == old(self).pending() + data@.take(i as int),
                self.max_graphics_width == old(self).spec_max_graphics_width(),
            decreases data@.len() - i,
        {
            self.output.push(data[i]);
            i = i + 1;
            assert(self.output@ =~= old(self).pending() + data@.take(i as int));
        }
        assert(data@.take(data@.len() as int) =~= data@);
        Ok(())
    }

    /// Queues ESC followed by `data`.
    pub fn esc(&mut self, data: &[u8]) -> (r: Result<(), PrinterError>)
        ensures
            final(self).pending() == old(self).pending() + seq![0x1Bu8] + data@,
            final(self).spec_max_graphics_width() == old(self).spec_max_graphics_width(),
            r is Ok,
    {
        self.output.push(0x1B);
        self.send(data)
    }

    /// Queues the status query DLE EOT 1; the reply is decoded by `status_from_reply`.
    pub fn query_status(&mut self) -> (r: Result<(), PrinterError>)
        ensures
            final(self).pending() == old(self).pending() + seq![0x10u8, 0x04u8, 0x01u8],
            final(self).spec_max_graphics_width() == old(self).spec_max_graphics_width(),
            r is Ok,
    {
        self.send(&[0x10, 0x04, 0x01])
    }

    /// ESC @: reset.
    pub fn reset(&mut self) -> (r: Result<(), PrinterError>)
        ensures
            final(self).pending() == old(self).pending() + seq![0x1Bu8, 0x40u8],
            final(self).spec_max_graphics_width() == old(self).spec_max_graphics_width(),
            r is Ok,
    {
        self.send(&[0x1B, 0x40])
    }

    /// The widest bit image the printer accepts.
    pub fn max_graphics_width(&self) -> (r: u16)
        ensures
            r == self.spec_max_graphics_width(),
    {
        self.max_graphics_width
    }

    /// The bytes queued for the device.
    pub fn writer(&self) -> (r: &[u8])
        ensures
            r@ == self.pending(),
    {
        self.output.as_slice()
    }

    /// Hands over the queued bytes and empties the queue.
    pub fn take_output(&mut self) -> (r: Vec<u8>)
        ensures
            r@ == old(self).pending(),
            final(self).pending() == Seq::<u8>::empty(),
            final(self).spec_max_graphics_width() == old(self).spec_max_graphics_width(),
    {
        let mut out: Vec<u8> = Vec::new();
        std::mem::swap(&mut out, &mut self.output);
        out
    }

    /// ESC K, L or Y with a little-endian width and the image columns.
    ///
    /// Fails, queuing nothing, when `width` exceeds the maximum or differs
    /// from the data's length.
    pub fn print_graphics(&mut self, mode: GraphicsMode, width: u16, data: &[u8]) -> (r: Result<
        (),
        PrinterError,
    >)
        ensures
            final(self).spec_max_graphics_width() == old(self).spec_max_graphics_width(),
            width > old(self).spec_max_graphics_width() ==> r == Err::<(), PrinterError>(
                PrinterError::Validation(
                    ValidationError::GraphicsWidthExceeded {
                        width,
                        max_width: old(self).spec_max_graphics_width(),
                    },
                ),
            ) && final(self).pending() == old(self).pending(),
            width <= old(self).spec_max_graphics_width() && width != data@.len() ==> r == Err::<
                (),
                PrinterError,
            >(
                PrinterError::Validation(
                    ValidationError::GraphicsWidthMismatch { width, data_len: data@.len() as usize },
                ),
            ) && final(self).pending() == old(self).pending(),
            width <= old(self).spec_max_graphics_width() && width == data@.len() ==> r is Ok
                && final(self).pending() == old(self).pending() + seq![
                0x1Bu8,
                mode.spec_command_byte(),
                low_byte(width),
                high_byte(width),
            ] + data@,
    {
        if width > self.max_graphics_width {
            return Err(
                PrinterError::Validation(
                    ValidationError::GraphicsWidthExceeded {
                        width,
                        max_width: self.max_graphics_width,
                    },
                ),
            );
        }
        if width as usize != data.len() {
            return Err(
                PrinterError::Validation(
                    ValidationError::GraphicsWidthMismatch { width, data_len: data.len() },
                ),
            );
        }
        self.output.push(0x1B);
        self.output.push(mode.as_command_byte());
        self.output.push((width % 256) as u8);
        self.output.push((width / 256) as u8);
        self.send(data)
    }

    /// ESC C n: page length in lines; zero is rejected.
    pub fn set_page_length_lines(&mut self, lines: u8) -> (r: Result<(), PrinterError>)
        ensures
            final(self).spec_max_graphics_width() == old(self).spec_max_graphics_width(),
            lines == 0 ==> r == Err::<(), PrinterError>(
                PrinterError::Validation(ValidationError::InvalidPageLength { value: lines }),
            ) && final(self).pending() == old(self).pending(),
            lines > 0 ==> r is Ok && final(self).pending() == old(self).pending() + seq![
                0x1Bu8,
                0x43u8,
                lines,
            ],
    {
        if lines < 1 {
            return Err(PrinterError::Validation(ValidationError::InvalidPageLength { value: lines }));
        }
        self.send(&[0x1B, 0x43, lines])
    }

    /// ESC ( C 2 0 nL nH: page length in dots; zero is rejected.
    pub fn set_page_length_dots(&mut self, dots: u16) -> (r: Result<(), PrinterError>)
        ensures
            final(self).spec_max_graphics_width() == old(self).spec_max_graphics_width(),
            dots == 0 ==> r == Err::<(), PrinterError>(
                PrinterError::Validation(ValidationError::InvalidPageLength { value: 0 }),
            ) && final(self).pending() == old(self).pending(),
            dots > 0 ==> r is Ok && final(self).pending() == old(self).pending() + seq![
                0x1Bu8,
                0x28u8,
                0x43u8,
                0x02u8,
                0x00u8,
                low_byte(dots),
                high_byte(dots),
            ],
    {
        if dots < 1 {
            return Err(PrinterError::Validation(ValidationError::InvalidPageLength { value: 0 }));
        }
        let nl = (dots % 256) as u8;
        let nh = (dots / 256) as u8;
        self.send(&[0x1B, 0x28, 0x43, 0x02, 0x00, nl, nh])
    }

    /// FF: eject the page.
    pub fn form_feed(&mut self) -> (r: Result<(), PrinterError>)
        ensures
            final(self).pending() == old(self).pending() + seq![0x0Cu8],
            final(self).spec_max_graphics_width() == old(self).spec_max_graphics_width(),
            r is Ok,
    {
        self.send(&[0x0C])
    }

    /// LF: advance one line.
    pub fn line_feed(&mut self) -> (r: Result<(), PrinterError>)
        ensures
            final(self).pending() == old(self).pending() + seq![0x0Au8],
            final(self).spec_max_graphics_width() == old(self).spec_max_graphics_width(),
            r is Ok,
    {
        self.send(&[0x0A])
    }

    /// CR: return to the left margin.
    pub fn carriage_return(&mut self) -> (r: Result<(), PrinterError>)
        ensures
            final(self).pending() == old(self).pending() + seq![0x0Du8],
            final(self).spec_max_graphics_width() == old(self).spec_max_graphics_width(),
            r is Ok,
    {
        self.send(&[0x0D])
    }

    /// ESC 3 n: line spacing of n/180 inch.
    pub fn set_line_spacing(&mut self, dots: u8) -> (r: Result<(), PrinterError>)
        ensures
            final(self).pending() == old(self).pending() + seq![0x1Bu8, 0x33u8, dots],
            final(self).spec_max_graphics_width() == old(self).spec_max_graphics_width(),
            r is Ok,
    {
        self.send(&[0x1B, 0x33, dots])
    }

    /// ESC 2: line spacing of 1/6 inch.
    pub fn set_default_line_spacing(&mut self) -> (r: Result<(), PrinterError>)
        ensures
            final(self).pending() == old(self).pending() + seq![0x1Bu8, 0x32u8],
            final(self).spec_max_graphics_width() == old(self).spec_max_graphics_width(),
            r is Ok,
    {
        self.send(&[0x1B, 0x32])
    }

    /// ESC l n: left margin in characters.
    pub fn set_left_margin(&mut self, chars: u8) -> (r: Result<(), PrinterError>)
        ensures
            final(self).pending() == old(self).pending() + seq![0x1Bu8, 0x6Cu8, chars],
            final(self).spec_max_graphics_width() == old(self).spec_max_graphics_width(),
            r is Ok,
    {
        self.send(&[0x1B, 0x6C, chars])
    }

    /// ESC Q n: right margin in characters.
    pub fn set_right_margin(&mut self, chars: u8) -> (r: Result<(), PrinterError>)
        ensures
            final(self).pending() == old(self).pending() + seq![0x1Bu8, 0x51u8, chars],
            final(self).spec_max_graphics_width() == old(self).spec_max_graphics_width(),
            r is Ok,
    {
        self.send(&[0x1B, 0x51, chars])
    }

    /// ESC J n: feed the paper forward n/180 inch; zero is rejected.
    pub fn micro_forward(&mut self, units: u8) -> (r: Result<(), PrinterError>)
        ensures
            final(self).spec_max_graphics_width() == old(self).spec_max_graphics_width(),
            units == 0 ==> r == Err::<(), PrinterError>(
                PrinterError::Validation(ValidationError::MicroFeedZero),
            ) && final(self).pending() == old(self).pending(),
            units > 0 ==> r is Ok && final(self).pending() == old(self).pending() + seq![
                0x1Bu8,
                0x4Au8,
                units,
            ],
    {
        if units == 0 {
            return Err(PrinterError::Validation(ValidationError::MicroFeedZero));
        }
        self.send(&[0x1B, 0x4A, units])
    }

    /// ESC j n: feed the paper back n/180 inch; zero is rejected.
    pub fn micro_reverse(&mut self, units: u8) -> (r: Result<(), PrinterError>)
        ensures
            final(self).spec_max_graphics_width() == old(self).spec_max_graphics_width(),
            units == 0 ==> r == Err::<(), PrinterError>(
                PrinterError::Validation(ValidationError::MicroFeedZero),
            ) && final(self).pending() == old(self).pending(),
            units > 0 ==> r is Ok && final(self).pending() == old(self).pending() + seq![
                0x1Bu8,
                0x6Au8,
                units,
            ],
    {
        if units == 0 {
            return Err(PrinterError::Validation(ValidationError::MicroFeedZero));
        }
        self.send(&[0x1B, 0x6A, units])
    }

    /// ESC $ nL nH: move to an absolute horizontal position.
    pub fn move_absolute_x(&mut self, position: u16) -> (r: Result<(), PrinterError>)
        ensures
            final(self).pending() == old(self).pending() + seq![
                0x1Bu8,
                0x24u8,
                low_byte(position),
                high_byte(position),
            ],
            final(self).spec_max_graphics_width() == old(self).spec_max_graphics_width(),
            r is Ok,
    {
        self.send(&[0x1B, 0x24, (position % 256) as u8, (position / 256) as u8])
    }

    /// ESC \ nL nH: move horizontally by a signed offset, sent in two's complement.
    pub fn move_relative_x(&mut self, offset: i16) -> (r: Result<(), PrinterError>)
        ensures
            final(self).pending() == old(self).pending() + seq![
                0x1Bu8,
                0x5Cu8,
                low_byte(offset as u16),
                high_byte(offset as u16),
            ],
            final(self).spec_max_graphics_width() == old(self).spec_max_graphics_width(),
            r is Ok,
    {
        let unsigned = offset as u16;
        self.send(&[0x1B, 0x5C, (unsigned % 256) as u8, (unsigned / 256) as u8])
    }

    /// ESC E: bold on.
    pub fn bold_on(&mut self) -> (r: Result<(), PrinterError>)
        ensures
            final(self).pending() == old(self).pending() + seq![0x1Bu8, 0x45u8],
            final(self).spec_max_graphics_width() == old(self).spec_max_graphics_width(),
            r is Ok,
    {
        self.send(&[0x1B, 0x45])
    }

    /// ESC F: bold off.
    pub fn bold_off(&mut self) -> (r: Result<(), PrinterError>)
        ensures
            final(self).pending() == old(self).pending() + seq![0x1Bu8, 0x46u8],
            final(self).spec_max_graphics_width() == old(self).spec_max_graphics_width(),
            r is Ok,
    {
        self.send(&[0x1B, 0x46])
    }

    /// ESC - 1: underline on.
    pub fn underline_on(&mut self) -> (r: Result<(), PrinterError>)
        ensures
            final(self).pending() == old(self).pending() + seq![0x1Bu8, 0x2Du8, 0x01u8],
            final(self).spec_max_graphics_width() == old(self).spec_max_graphics_width(),
            r is Ok,
    {
        self.send(&[0x1B, 0x2D, 0x01])
    }

    /// ESC - 0: underline off.
    pub fn underline_off(&mut self) -> (r: Result<(), PrinterError>)
        ensures
            final(self).pending() == old(self).pending() + seq![0x1Bu8, 0x2Du8, 0x00u8],
            final(self).spec_max_graphics_width() == old(self).spec_max_graphics_width(),
            r is Ok,
    {
        self.send(&[0x1B, 0x2D, 0x00])
    }

    /// ESC G: double strike on.
    pub fn double_strike_on(&mut self) -> (r: Result<(), PrinterError>)
        ensures
            final(self).pending() == old(self).pending() + seq![0x1Bu8, 0x47u8],
            final(self).spec_max_graphics_width() == old(self).spec_max_graphics_width(),
            r is Ok,
    {
        self.send(&[0x1B, 0x47])
    }

    /// ESC H: double strike off.
    pub fn double_strike_off(&mut self) -> (r: Result<(), PrinterError>)
        ensures
            final(self).pending() == old(self).pending() + seq![0x1Bu8, 0x48u8],
            final(self).spec_max_graphics_width() == old(self).spec_max_graphics_width(),
            r is Ok,
    {
        self.send(&[0x1B, 0x48])
    }

    /// ESC P: 10 characters per inch.
    pub fn select_10cpi(&mut self) -> (r: Result<(), PrinterError>)
        ensures
            final(self).pending() == old(self).pending() + seq![0x1Bu8, 0x50u8],
            final(self).spec_max_graphics_width() == old(self).spec_max_graphics_width(),
            r is Ok,
    {
        self.send(&[0x1B, 0x50])
    }

    /// ESC M: 12 characters per inch.
    pub fn select_12cpi(&mut self) -> (r: Result<(), PrinterError>)
        ensures
            final(self).pending() == old(self).pending() + seq![0x1Bu8, 0x4Du8],
            final(self).spec_max_graphics_width() == old(self).spec_max_graphics_width(),
            r is Ok,
    {
        self.send(&[0x1B, 0x4D])
    }

    /// ESC g: 15 characters per inch.
    pub fn select_15cpi(&mut self) -> (r: Result<(), PrinterError>)
        ensures
            final(self).pending() == old(self).pending() + seq![0x1Bu8, 0x67u8],
            final(self).spec_max_graphics_width() == old(self).spec_max_graphics_width(),
            r is Ok,
    {
        self.send(&[0x1B, 0x67])
    }

    /// ESC k n: select a font.
    pub fn select_font(&mut self, font: Font) -> (r: Result<(), PrinterError>)
        ensures
            final(self).pending() == old(self).pending() + seq![0x1Bu8, 0x6Bu8, font.spec_byte()],
            final(self).spec_max_graphics_width() == old(self).spec_max_graphics_width(),
            r is Ok,
    {
        let command = font.as_command();
        self.send(&command)
    }

    /// Queues text, with every non-ASCII character replaced by `?`.
    pub fn write_text(&mut self, text: &str) -> (r: Result<(), PrinterError>)
        ensures
            final(self).pending() == old(self).pending() + ascii_bytes(text@),
            final(self).spec_max_graphics_width() == old(self).spec_max_graphics_width(),
            r is Ok,
    {
        let mut bytes: Vec<u8> = Vec::new();
        for ch in it: text.chars()
            invariant
                it.seq() == text@,
                bytes@ == ascii_bytes(text@).take(it.index() as int),
        {
            let code = ch as u32;
            if code < 128 {
                bytes.push(code as u8);
            } else {
                bytes.push(63);
            }
            assert(bytes@ =~= ascii_bytes(text@).take(it.index() + 1));
        }
        assert(bytes@ =~= ascii_bytes(text@));
        self.send(bytes.as_slice())
    }
}

} // verus!
