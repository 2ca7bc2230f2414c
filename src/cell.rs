use vstd::prelude::*;

verus! {

/// The set of text styles a cell can carry: bold and underline, combinable.
#[allow(non_camel_case_types)]
#[derive(Copy, Clone, Debug, PartialEq, Eq, Structural)]
pub enum StyleFlags {
    /// No styling.
    NONE,
    /// Bold only.
    BOLD,
    /// Underline only.
    UNDERLINE,
    /// Bold and underline together.
    BOLD_UNDERLINE,
}

impl StyleFlags {
    /// Whether bold is part of this style.
    pub open spec fn spec_bold(self) -> bool {
        self == StyleFlags::BOLD || self == StyleFlags::BOLD_UNDERLINE
    }

    /// Whether underline is part of this style.
    pub open spec fn spec_underline(self) -> bool {
        self == StyleFlags::UNDERLINE || self == StyleFlags::BOLD_UNDERLINE
    }

    /// The style holding exactly the given flags.
    pub open spec fn from_flags(bold: bool, underline: bool) -> StyleFlags {
        if bold && underline {
            StyleFlags::BOLD_UNDERLINE
        } else if bold {
            StyleFlags::BOLD
        } else if underline {
            StyleFlags::UNDERLINE
        } else {
            StyleFlags::NONE
        }
    }

    /// The packed form: bit 0 is bold, bit 1 is underline.
    pub open spec fn spec_bits(self) -> u8 {
        match self {
            StyleFlags::NONE => 0,
            StyleFlags::BOLD => 1,
            StyleFlags::UNDERLINE => 2,
            StyleFlags::BOLD_UNDERLINE => 3,
        }
    }

    /// Returns true if bold style is active.
    pub fn bold(self) -> (r: bool)
        ensures
            r == self.spec_bold(),
    {
        match self {
            StyleFlags::BOLD | StyleFlags::BOLD_UNDERLINE => true,
            _ => false,
        }
    }

    /// Returns true if underline style is active.
    pub fn underline(self) -> (r: bool)
        ensures
            r == self.spec_underline(),
    {
        match self {
            StyleFlags::UNDERLINE | StyleFlags::BOLD_UNDERLINE => true,
            _ => false,
        }
    }

    /// Returns this style with bold added.
    pub fn with_bold(self) -> (r: StyleFlags)
        ensures
            r == StyleFlags::from_flags(true, self.spec_underline()),
    {
        if self.underline() {
            StyleFlags::BOLD_UNDERLINE
        } else {
            StyleFlags::BOLD
        }
    }

    /// Returns this style with underline added.
    pub fn with_underline(self) -> (r: StyleFlags)
        ensures
            r == StyleFlags::from_flags(self.spec_bold(), true),
    {
        if self.bold() {
            StyleFlags::BOLD_UNDERLINE
        } else {
            StyleFlags::UNDERLINE
        }
    }

    /// The packed form: bit 0 is bold, bit 1 is underline.
    pub fn bits(self) -> (r: u8)
        ensures
            r == self.spec_bits(),
    {
        match self {
            StyleFlags::NONE => 0,
            StyleFlags::BOLD => 1,
            StyleFlags::UNDERLINE => 2,
            StyleFlags::BOLD_UNDERLINE => 3,
        }
    }
}

/// The byte a character is stored as: printable ASCII is kept, anything else becomes `?`.
pub open spec fn normalize_char(ch: char) -> u8 {
    if 32 <= ch as u32 <= 126 {
        ch as u32 as u8
    } else {
        63u8
    }
}

/// A printable ASCII byte.
pub open spec fn is_printable(b: u8) -> bool {
    32 <= b <= 126
}

/// One character position of the page grid: a printable ASCII byte and its style.
#[derive(Copy, Clone, Debug, PartialEq, Eq, Structural)]
pub struct Cell {
    character: u8,
    style: StyleFlags,
}

impl Cell {
    #[verifier::type_invariant]
    spec fn printable(self) -> bool {
        is_printable(self.character)
    }

    /// The stored byte.
    pub closed spec fn spec_byte(self) -> u8 {
        self.character
    }

    /// The stored style.
    pub closed spec fn spec_style(self) -> StyleFlags {
        self.style
    }

    /// The cell that holds `b` with `style`.
    pub closed spec fn spec_new(b: u8, style: StyleFlags) -> Cell {
        Cell { character: b, style }
    }

    /// A cell is determined by its byte and its style.
    pub proof fn lemma_ext(a: Cell, b: Cell)
        ensures
            (a == b) <==> (a.spec_byte() == b.spec_byte() && a.spec_style() == b.spec_style()),
    {
    }

    /// The cell built from a character and a style.
    pub open spec fn of_char(ch: char, style: StyleFlags) -> Cell {
        Cell::spec_new(normalize_char(ch), style)
    }

    /// What `spec_new` stores.
    pub proof fn lemma_spec_new(b: u8, style: StyleFlags)
        ensures
            Cell::spec_new(b, style).spec_byte() == b,
            Cell::spec_new(b, style).spec_style() == style,
    {
    }

    /// The blank, unstyled cell that every page starts with.
    pub open spec fn spec_empty() -> Cell {
        Cell::spec_new(32u8, StyleFlags::NONE)
    }

    /// Creates a cell; a character outside printable ASCII is stored as `?`.
    pub fn new(ch: char, style: StyleFlags) -> (c: Cell)
        ensures
            c == Cell::of_char(ch, style),
    {
        let code = ch as u32;
        let character: u8 = if 32 <= code && code <= 126 {
            code as u8
        } else {
            63
        };
        Cell { character, style }
    }

    /// A space with no styling.
    pub fn empty() -> (c: Cell)
        ensures
            c == Cell::spec_empty(),
    {
        Cell { character: 32, style: StyleFlags::NONE }
    }

    /// Returns the character as a `char`.
    pub fn character(&self) -> (r: char)
        ensures
            r == self.spec_byte() as char,
    {
        self.character as char
    }

    /// Returns the stored byte.
    pub fn byte(&self) -> (r: u8)
        ensures
            r == self.spec_byte(),
            is_printable(r),
    {
        proof {
            use_type_invariant(self);
        }
        self.character
    }

    /// Returns the style flags.
    pub fn style(&self) -> (r: StyleFlags)
        ensures
            r == self.spec_style(),
    {
        self.style
    }
}

} // verus!
