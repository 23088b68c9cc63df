//! The two unit widths, and how a scalar value is stored in a signed unit.
use vstd::prelude::*;

verus! {

/// The code-unit width of the produced C string.
#[derive(Copy, Clone, Debug, PartialEq, Eq, Structural)]
pub enum TransformType {
    /// 8-bit units, as in a `char` string.
    CString,
    /// 16-bit units, as in a `wchar_t` string.
    CWString,
}

impl TransformType {
    /// Largest scalar value that one unit of this width can hold.
    pub open spec fn max_scalar(self) -> int {
        match self {
            TransformType::CString => 0xff,
            TransformType::CWString => 0xffff,
        }
    }

    /// Number of bits in one unit of this width.
    pub open spec fn unit_bits(self) -> nat {
        match self {
            TransformType::CString => 8,
            TransformType::CWString => 16,
        }
    }

    /// Number of distinct values of one unit: `2^unit_bits`.
    pub open spec fn modulus(self) -> int {
        self.max_scalar() + 1
    }

    /// Returns the largest character that fits into this width.
    pub fn max_char(&self) -> (r: u32)
        ensures
            r as int == self.max_scalar(),
    {
        match self {
            TransformType::CString => 0xff,
            TransformType::CWString => 0xffff,
        }
    }

    /// Returns the size of one unit in bits.
    pub fn unit_size_bits(&self) -> (r: u32)
        ensures
            r as nat == self.unit_bits(),
    {
        match self {
            TransformType::CString => 8,
            TransformType::CWString => 16,
        }
    }
}

/// Two's-complement reading of the scalar `c` (at most `t.max_scalar()`) as a
/// signed unit of width `t`: values of the upper half become negative.
pub open spec fn signed_unit(c: int, t: TransformType) -> int {
    if 2 * c < t.modulus() {
        c
    } else {
        c - t.modulus()
    }
}

/// Reads a signed unit of width `t` back as unsigned.
pub open spec fn unsigned_unit(u: int, t: TransformType) -> int {
    u % t.modulus()
}

/// The scalar value of `c`.
pub(crate) fn scalar_value(c: char) -> (r: u32)
    ensures
        r as int == c as int,
{
    let v: u32 = #[verifier::truncate] (c as u32);
    proof {
        vstd::utf8::char_is_scalar(c);
        vstd::utf8::char_u32_cast(c, v);
    }
    v
}

/// Stores a scalar of at most 0xff as a signed 8-bit unit.
pub(crate) fn narrow_unit(c: char) -> (r: i8)
    requires
        c as int <= 0xff,
    ensures
        r as int == signed_unit(c as int, TransformType::CString),
{
    let v: u32 = scalar_value(c);
    let r: i8 = #[verifier::truncate] (v as i8);
    assert(v <= 0xff ==> (v < 0x80 ==> r == v) && (v >= 0x80 ==> r < 0 && (v - 0x100) == r))
        by (bit_vector)
        requires
            r == #[verifier::truncate] (v as i8),
    ;
    r
}

/// Stores a scalar of at most 0xffff as a signed 16-bit unit.
pub(crate) fn wide_unit(c: char) -> (r: i16)
    requires
        c as int <= 0xffff,
    ensures
        r as int == signed_unit(c as int, TransformType::CWString),
{
    let v: u32 = scalar_value(c);
    let r: i16 = #[verifier::truncate] (v as i16);
    assert(v <= 0xffff ==> (v < 0x8000 ==> r == v) && (v >= 0x8000 ==> r < 0 && (v - 0x10000) == r))
        by (bit_vector)
        requires
            r == #[verifier::truncate] (v as i16),
    ;
    r
}

} // verus!
