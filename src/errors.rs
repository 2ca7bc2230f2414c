use vstd::prelude::*;

verus! {

/// A command argument the printer would not accept.
#[derive(Debug, Clone, Copy, PartialEq, Eq, Structural)]
pub enum ValidationError {
    /// A micro-feed of zero units.
    MicroFeedZero,
    /// A bit image wider than the printer allows.
    GraphicsWidthExceeded { width: u16, max_width: u16 },
    /// A bit image whose data length is not its width.
    GraphicsWidthMismatch { width: u16, data_len: usize },
    /// A page length of zero.
    InvalidPageLength { value: u8 },
}

/// Failures of the printer driver.
#[derive(Debug, PartialEq, Eq)]
pub enum PrinterError {
    /// The device reported an input or output failure.
    Io { message: String },
    /// The device exists but may not be opened.
    Permission { path: String, message: String },
    /// No device at the path.
    DeviceNotFound { path: String },
    /// The device went away.
    Disconnected,
    /// No reply within the given number of milliseconds.
    Timeout { timeout_ms: u64 },
    /// The printer's buffer is full; retry later.
    BufferFull,
    /// A command argument was rejected before anything was sent.
    Validation(ValidationError),
}

} // verus!
