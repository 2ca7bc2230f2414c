use vstd::prelude::*;

verus! {

/// The printer's built-in typefaces.
#[derive(Debug, Clone, Copy, PartialEq, Eq, Structural)]
pub enum Font {
    Roman,
    SansSerif,
    Courier,
    Script,
    Prestige,
}

impl Font {
    /// The font's number in the ESC k command.
    pub open spec fn spec_byte(self) -> u8 {
        match self {
            Font::Roman => 0,
            Font::SansSerif => 1,
            Font::Courier => 2,
            Font::Script => 3,
            Font::Prestige => 4,
        }
    }

    /// The font's number in the ESC k command.
    pub fn as_byte(self) -> (r: u8)
        ensures
            r == self.spec_byte(),
    {
        match self {
            Font::Roman => 0,
            Font::SansSerif => 1,
            Font::Courier => 2,
            Font::Script => 3,
            Font::Prestige => 4,
        }
    }

    /// ESC k n: select this font.
    pub fn as_command(self) -> (r: [u8; 3])
        ensures
            r@ == seq![0x1Bu8, 0x6Bu8, self.spec_byte()],
    {
        let r = [0x1B, 0x6B, self.as_byte()];
        assert(r@ =~= seq![0x1Bu8, 0x6Bu8, self.spec_byte()]);
        r
    }
}

/// Bit-image densities.
#[derive(Debug, Clone, Copy, PartialEq, Eq, Structural)]
pub enum GraphicsMode {
    SingleDensity,
    DoubleDensity,
    HighDensity,
}

impl GraphicsMode {
    /// The command letter after ESC: K, L or Y.
    pub open spec fn spec_command_byte(self) -> u8 {
        match self {
            GraphicsMode::SingleDensity => 0x4B,
            GraphicsMode::DoubleDensity => 0x4C,
            GraphicsMode::HighDensity => 0x59,
        }
    }

    /// The command letter after ESC: K, L or Y.
    pub fn as_command_byte(self) -> (r: u8)
        ensures
            r == self.spec_command_byte(),
    {
        match self {
            GraphicsMode::SingleDensity => 0x4B,
            GraphicsMode::DoubleDensity => 0x4C,
            GraphicsMode::HighDensity => 0x59,
        }
    }
}

/// Character pitches: 10, 12 and 15 characters per inch.
#[derive(Debug, Clone, Copy, PartialEq, Eq, Structural)]
pub enum Pitch {
    Pica,
    Elite,
    Condensed,
}

impl Pitch {
    /// The command letter after ESC: P, M or g.
    pub open spec fn spec_letter(self) -> u8 {
        match self {
            Pitch::Pica => 0x50,
            Pitch::Elite => 0x4D,
            Pitch::Condensed => 0x67,
        }
    }

    /// ESC P, ESC M or ESC g.
    pub fn as_command(self) -> (r: Vec<u8>)
        ensures
            r@ == seq![0x1Bu8, self.spec_letter()],
    {
        let letter: u8 = match self {
            Pitch::Pica => 0x50,
            Pitch::Elite => 0x4D,
            Pitch::Condensed => 0x67,
        };
        let mut r: Vec<u8> = Vec::new();
        r.push(0x1B);
        r.push(letter);
        assert(r@ =~= seq![0x1Bu8, self.spec_letter()]);
        r
    }
}

/// Line spacing: the default 1/6 inch, or n/180 inch.
#[derive(Debug, Clone, Copy, PartialEq, Eq, Structural)]
pub enum LineSpacing {
    Default,
    Custom(u8),
}

impl LineSpacing {
    /// The command bytes for this spacing.
    pub open spec fn spec_command(self) -> Seq<u8> {
        match self {
            LineSpacing::Default => seq![0x1Bu8, 0x32u8],
            LineSpacing::Custom(dots) => seq![0x1Bu8, 0x33u8, dots],
        }
    }

    /// ESC 2, or ESC 3 n.
    pub fn as_command(self) -> (r: Vec<u8>)
        ensures
            r@ == self.spec_command(),
    {
        let mut r: Vec<u8> = Vec::new();
        r.push(0x1B);
        match self {
            LineSpacing::Default => {
                r.push(0x32);
            },
            LineSpacing::Custom(dots) => {
                r.push(0x33);
                r.push(dots);
            },
        }
        assert(r@ =~= self.spec_command());
        r
    }
}

/// The printer's state as reported by its status byte.
#[derive(Debug, Clone, Copy, PartialEq, Eq, Structural)]
pub struct PrinterStatus {
    pub online: bool,
    pub paper_out: bool,
    pub error: bool,
}

impl PrinterStatus {
    /// Decodes a status byte: bit 3 set means offline, bit 5 paper out, bit 6 error.
    pub fn from_byte(byte: u8) -> (s: PrinterStatus)
        ensures
            s.online == (byte & 0x08 == 0),
            s.paper_out == (byte & 0x20 != 0),
            s.error == (byte & 0x40 != 0),
    {
        PrinterStatus {
            online: (byte & 0x08) == 0,
            paper_out: (byte & 0x20) != 0,
            error: (byte & 0x40) != 0,
        }
    }

    /// Online, with paper and without error.
    pub fn is_ready(&self) -> (r: bool)
        ensures
            r == (self.online && !self.paper_out && !self.error),
    {
        self.online && !self.paper_out && !self.error
    }
}

} // verus!
