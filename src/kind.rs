use vstd::prelude::*;

verus! {

/// The kinds of token the scanner produces.
#[derive(Clone, Copy, Debug, PartialEq, Eq, Structural)]
pub enum Kind {
    /// End of the source: an empty token at its end.
    Eof,
    /// A run of spaces, tabs and line breaks.
    Whitespace,
    /// A name: a letter, `_` or `$`, then letters, digits, `_` or `$`.
    Identifier,
    /// A run of decimal digits.
    Number,
    /// `<`
    LAngle,
    /// `<<`
    LShift,
    /// `<<=`
    LShiftEq,
    /// `<=`
    LtEq,
    /// `>`
    RAngle,
    /// `>>`
    RShift,
    /// `>>>`
    RShift3,
    /// `>>=`
    RShiftEq,
    /// `>>>=`
    RShift3Eq,
    /// `>=`
    GtEq,
    /// `=`
    Assign,
    /// Any other single byte.
    Undetermined,
}

pub const LT: u8 = 0x3c;

pub const GT: u8 = 0x3e;

pub const EQ: u8 = 0x3d;

impl Kind {
    /// The exact text of a punctuator kind; `None` for the kinds whose
    /// text varies.
    pub open spec fn text(self) -> Option<Seq<u8>> {
        match self {
            Kind::LAngle => Some(seq![LT]),
            Kind::LShift => Some(seq![LT, LT]),
            Kind::LShiftEq => Some(seq![LT, LT, EQ]),
            Kind::LtEq => Some(seq![LT, EQ]),
            Kind::RAngle => Some(seq![GT]),
            Kind::RShift => Some(seq![GT, GT]),
            Kind::RShift3 => Some(seq![GT, GT, GT]),
            Kind::RShiftEq => Some(seq![GT, GT, EQ]),
            Kind::RShift3Eq => Some(seq![GT, GT, GT, EQ]),
            Kind::GtEq => Some(seq![GT, EQ]),
            Kind::Assign => Some(seq![EQ]),
            _ => None,
        }
    }

    /// Compound operators that begin with `<`: each can be narrowed to `<`.
    pub open spec fn is_l_angle_compound(self) -> bool {
        self == Kind::LShift || self == Kind::LShiftEq || self == Kind::LtEq
    }

    /// Compound operators that begin with `>`: each can be narrowed to `>`.
    pub open spec fn is_r_angle_compound(self) -> bool {
        self == Kind::RShift || self == Kind::RShift3 || self == Kind::RShiftEq
            || self == Kind::RShift3Eq || self == Kind::GtEq
    }

    pub open spec fn is_angle_compound(self) -> bool {
        self.is_l_angle_compound() || self.is_r_angle_compound()
    }

    /// Byte width of a compound operator, the text's length.
    pub open spec fn compound_width(self) -> nat {
        if self.is_angle_compound() {
            self.text().unwrap().len()
        } else {
            0
        }
    }

    /// The catalog of compound angle operators: their byte width, which is
    /// the offset a caller hands to the narrowing entry point; `None` for
    /// every other kind.
    pub fn angle_compound_width(self) -> (r: Option<u32>)
        ensures
            self.is_angle_compound() <==> r.is_some(),
            r.is_some() ==> r.unwrap() as nat == self.compound_width(),
    {
        match self {
            Kind::LShift => Some(2),
            Kind::LShiftEq => Some(3),
            Kind::LtEq => Some(2),
            Kind::RShift => Some(2),
            Kind::RShift3 => Some(3),
            Kind::RShiftEq => Some(3),
            Kind::RShift3Eq => Some(4),
            Kind::GtEq => Some(2),
            _ => None,
        }
    }
}

} // verus!
