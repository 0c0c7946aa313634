use vstd::prelude::*;

verus! {

/// JVM access flags of a class, field or method (`access_flags` item of the class file).
#[derive(Debug, Clone, Copy, PartialEq, Eq, Structural)]
pub struct AccessFlags(pub u16);

/// `true` when any bit of `flag` is set in `bits`.
pub open spec fn has_flag(bits: u16, flag: u16) -> bool {
    bits & flag != 0
}

impl AccessFlags {
    pub const ACC_PUBLIC: u16 = 0x0001;
    pub const ACC_PRIVATE: u16 = 0x0002;
    pub const ACC_PROTECTED: u16 = 0x0004;
    pub const ACC_STATIC: u16 = 0x0008;
    pub const ACC_FINAL: u16 = 0x0010;
    /// methods only
    pub const ACC_SYNCHRONIZED: u16 = 0x0020;
    /// fields only
    pub const ACC_VOLATILE: u16 = 0x0040;
    /// fields only
    pub const ACC_TRANSIENT: u16 = 0x0080;
    /// methods only
    pub const ACC_NATIVE: u16 = 0x0100;
    /// classes only
    pub const ACC_INTERFACE: u16 = 0x0200;
    pub const ACC_ABSTRACT: u16 = 0x0400;
    /// methods only
    pub const ACC_STRICT: u16 = 0x0800;
    pub const ACC_SYNTHETIC: u16 = 0x1000;
    /// classes only
    pub const ACC_ANNOTATION: u16 = 0x2000;
    pub const ACC_ENUM: u16 = 0x4000;

    pub fn from_bits(bits: u16) -> (r: Self)
        ensures
            r.0 == bits,
    {
        AccessFlags(bits)
    }

    pub fn bits(self) -> (r: u16)
        ensures
            r == self.0,
    {
        self.0
    }

    pub fn contains(self, flag: u16) -> (r: bool)
        ensures
            r == has_flag(self.0, flag),
    {
        (self.0 & flag) != 0
    }

    /// Marked public.
    pub fn is_public(self) -> (r: bool)
        ensures
            r == has_flag(self.0, Self::ACC_PUBLIC),
    {
        self.contains(Self::ACC_PUBLIC)
    }

    /// Marked private.
    pub fn is_private(self) -> (r: bool)
        ensures
            r == has_flag(self.0, Self::ACC_PRIVATE),
    {
        self.contains(Self::ACC_PRIVATE)
    }

    /// Marked protected.
    pub fn is_protected(self) -> (r: bool)
        ensures
            r == has_flag(self.0, Self::ACC_PROTECTED),
    {
        self.contains(Self::ACC_PROTECTED)
    }

    /// Marked static.
    pub fn is_static(self) -> (r: bool)
        ensures
            r == has_flag(self.0, Self::ACC_STATIC),
    {
        self.contains(Self::ACC_STATIC)
    }

    /// Marked final.
    pub fn is_final(self) -> (r: bool)
        ensures
            r == has_flag(self.0, Self::ACC_FINAL),
    {
        self.contains(Self::ACC_FINAL)
    }

    /// Marked synthetic.
    pub fn is_synthetic(self) -> (r: bool)
        ensures
            r == has_flag(self.0, Self::ACC_SYNTHETIC),
    {
        self.contains(Self::ACC_SYNTHETIC)
    }

    /// Marked synchronized (methods).
    pub fn is_synchronized(self) -> (r: bool)
        ensures
            r == has_flag(self.0, Self::ACC_SYNCHRONIZED),
    {
        self.contains(Self::ACC_SYNCHRONIZED)
    }

    /// Marked native (methods).
    pub fn is_native(self) -> (r: bool)
        ensures
            r == has_flag(self.0, Self::ACC_NATIVE),
    {
        self.contains(Self::ACC_NATIVE)
    }

    /// Marked abstract.
    pub fn is_abstract(self) -> (r: bool)
        ensures
            r == has_flag(self.0, Self::ACC_ABSTRACT),
    {
        self.contains(Self::ACC_ABSTRACT)
    }

    /// Marked strict (methods).
    pub fn is_strict(self) -> (r: bool)
        ensures
            r == has_flag(self.0, Self::ACC_STRICT),
    {
        self.contains(Self::ACC_STRICT)
    }

    /// Marked volatile (fields).
    pub fn is_volatile(self) -> (r: bool)
        ensures
            r == has_flag(self.0, Self::ACC_VOLATILE),
    {
        self.contains(Self::ACC_VOLATILE)
    }

    /// Marked transient (fields).
    pub fn is_transient(self) -> (r: bool)
        ensures
            r == has_flag(self.0, Self::ACC_TRANSIENT),
    {
        self.contains(Self::ACC_TRANSIENT)
    }

    /// Marked an enum (or an enum constant).
    pub fn is_enum(self) -> (r: bool)
        ensures
            r == has_flag(self.0, Self::ACC_ENUM),
    {
        self.contains(Self::ACC_ENUM)
    }
}

impl From<u16> for AccessFlags {
    fn from(v: u16) -> (r: AccessFlags) {
        AccessFlags::from_bits(v)
    }
}

impl vstd::std_specs::convert::FromSpecImpl<u16> for AccessFlags {
    open spec fn obeys_from_spec() -> bool {
        true
    }

    open spec fn from_spec(v: u16) -> AccessFlags {
        AccessFlags(v)
    }
}

impl From<AccessFlags> for u16 {
    fn from(f: AccessFlags) -> (r: u16) {
        f.bits()
    }
}

impl vstd::std_specs::convert::FromSpecImpl<AccessFlags> for u16 {
    open spec fn obeys_from_spec() -> bool {
        true
    }

    open spec fn from_spec(f: AccessFlags) -> u16 {
        f.0
    }
}

/// A combination of flags holds a flag exactly when one of its parts does.
pub proof fn law_contains_union(a: u16, b: u16, flag: u16)
    ensures
        has_flag(a | b, flag) == (has_flag(a, flag) || has_flag(b, flag)),
{
    assert(((a | b) & flag != 0) == ((a & flag != 0) || (b & flag != 0))) by (bit_vector);
}

/// Converting a raw value into flags and back gives the raw value.
pub proof fn law_bits_roundtrip(bits: u16)
    ensures
        <u16 as vstd::std_specs::convert::FromSpec<AccessFlags>>::from_spec(
            <AccessFlags as vstd::std_specs::convert::FromSpec<u16>>::from_spec(bits),
        ) == bits,
{
}

} // verus!
