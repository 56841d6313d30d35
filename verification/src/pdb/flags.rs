use vstd::prelude::*;

verus! {

/// Bit of [`DumperFlags`]: function signatures are rendered without their return type.
pub const NO_FUNCTION_RETURN: u32 = 0b1;

/// Bit of [`DumperFlags`]: a space follows each comma of an argument list.
pub const SPACE_AFTER_COMMA: u32 = 0b10;

/// Bit of [`DumperFlags`]: the space goes before a pointer sigil instead of after it.
pub const SPACE_BEFORE_POINTER: u32 = 0b100;

/// Bit of [`DumperFlags`]: aggregates are rendered by their bare name.
pub const NAME_ONLY: u32 = 0b1000;

/// Every bit that has a meaning.
pub const ALL_FLAGS: u32 = 0b1111;

/// The style of the rendered declarators: a set of four independent flags.
#[derive(Clone, Copy, Debug, PartialEq, Eq, Structural)]
pub struct DumperFlags {
    bits: u32,
}

impl DumperFlags {
    /// The raw bits of the set.
    pub closed spec fn spec_bits(self) -> u32 {
        self.bits
    }

    /// Whether return types are left out of function signatures.
    pub open spec fn omits_return(self) -> bool {
        self.spec_bits() & NO_FUNCTION_RETURN != 0
    }

    /// Whether a space follows the commas of argument lists.
    pub open spec fn spaces_after_comma(self) -> bool {
        self.spec_bits() & SPACE_AFTER_COMMA != 0
    }

    /// Whether the space stands before a pointer sigil.
    pub open spec fn spaces_before_pointer(self) -> bool {
        self.spec_bits() & SPACE_BEFORE_POINTER != 0
    }

    /// Whether aggregates are rendered without their keyword.
    pub open spec fn names_only(self) -> bool {
        self.spec_bits() & NAME_ONLY != 0
    }

    /// The set with no flag.
    pub fn empty() -> (flags: Self)
        ensures
            flags.spec_bits() == 0,
    {
        DumperFlags { bits: 0 }
    }

    /// The set with every flag.
    pub fn all() -> (flags: Self)
        ensures
            flags.spec_bits() == ALL_FLAGS,
    {
        DumperFlags { bits: ALL_FLAGS }
    }

    /// The set of the known flags among `bits`; unknown bits are dropped.
    pub fn from_bits_truncate(bits: u32) -> (flags: Self)
        ensures
            flags.spec_bits() == bits & ALL_FLAGS,
    {
        DumperFlags { bits: bits & ALL_FLAGS }
    }

    /// The raw bits of the set.
    #[verifier::when_used_as_spec(spec_bits)]
    pub fn bits(self) -> (bits: u32)
        ensures
            bits == self.spec_bits(),
    {
        self.bits
    }

    /// The flags of `self` and those of `other`.
    pub fn union(self, other: Self) -> (flags: Self)
        ensures
            flags.spec_bits() == self.spec_bits() | other.spec_bits(),
    {
        DumperFlags { bits: self.bits | other.bits }
    }

    /// Whether `self` and `other` share a flag.
    pub fn intersects(self, other: Self) -> (shared: bool)
        ensures
            shared == (self.spec_bits() & other.spec_bits() != 0),
    {
        self.bits & other.bits != 0
    }

    /// Whether every flag of `other` is in `self`.
    pub fn contains(self, other: Self) -> (held: bool)
        ensures
            held == (self.spec_bits() & other.spec_bits() == other.spec_bits()),
    {
        self.bits & other.bits == other.bits
    }

    /// Whether the bit `flag` is set.
    pub fn has(self, flag: u32) -> (set: bool)
        ensures
            set == (self.spec_bits() & flag != 0),
    {
        self.bits & flag != 0
    }
}

impl Default for DumperFlags {
    /// Return types omitted, a space after commas, aggregates by name only.
    fn default() -> (flags: Self)
        ensures
            flags.spec_bits() == NO_FUNCTION_RETURN | SPACE_AFTER_COMMA | NAME_ONLY,
            flags.omits_return(),
            flags.spaces_after_comma(),
            !flags.spaces_before_pointer(),
            flags.names_only(),
    {
        let bits: u32 = NO_FUNCTION_RETURN | SPACE_AFTER_COMMA | NAME_ONLY;
        assert(bits == 0b1011 && bits & 0b1 != 0 && bits & 0b10 != 0 && bits & 0b100 == 0 && bits
            & 0b1000 != 0) by (bit_vector)
            requires
                bits == 0b1u32 | 0b10u32 | 0b1000u32,
        ;
        DumperFlags { bits }
    }
}

} // verus!
