//! Walks the input's scalar values, reports those that do not fit, and
//! assembles the null-terminated array of units.
use vstd::prelude::*;
use vstd::std_specs::iter::IteratorSpec;
use vstd::string::StrSliceExecFns;

verus! {

use crate::width::{narrow_unit, scalar_value, signed_unit, wide_unit, TransformType};

/// A character that does not fit into the active width, with its zero-based
/// position among the scalar values of the input.
#[derive(Copy, Clone, Debug, PartialEq, Eq, Structural)]
pub struct Diagnostic {
    pub character: char,
    pub offset: usize,
}

impl Diagnostic {
    /// The diagnostic for `character` at `offset`.
    pub fn new(character: char, offset: usize) -> (r: Diagnostic)
        ensures
            r.character == character,
            r.offset == offset,
    {
        Diagnostic { character, offset }
    }
}

/// Every scalar value of `s` fits into one unit of width `t`.
pub open spec fn fits(s: Seq<char>, t: TransformType) -> bool {
    forall|i: int| 0 <= i < s.len() ==> s[i] as int <= t.max_scalar()
}

/// The positions, in increasing order, of the characters of `s` above
/// `t.max_scalar()`.
pub open spec fn unsupported_offsets(s: Seq<char>, t: TransformType) -> Seq<int>
    decreases s.len(),
{
    if s.len() == 0 {
        Seq::empty()
    } else if s.last() as int > t.max_scalar() {
        unsupported_offsets(s.drop_last(), t).push(s.len() - 1)
    } else {
        unsupported_offsets(s.drop_last(), t)
    }
}

/// `d` holds one diagnostic for each character of `s` above `t.max_scalar()`,
/// naming that character and its offset, in the order of `s`.
pub open spec fn reports_unsupported(d: Seq<Diagnostic>, s: Seq<char>, t: TransformType) -> bool {
    let offsets = unsupported_offsets(s, t);
    &&& d.len() == offsets.len()
    &&& forall|k: int|
        0 <= k < d.len() ==> {
            &&& d[k].offset as int == offsets[k]
            &&& d[k].character == s[offsets[k]]
        }
}

/// The units of the C string for `s`: each scalar value as a signed unit of
/// width `t`, then the terminator `0`.
pub open spec fn encoding(s: Seq<char>, t: TransformType) -> Seq<int> {
    Seq::new(s.len() + 1, |i: int| if i < s.len() { signed_unit(s[i] as int, t) } else { 0 })
}

/// Lists, in order, every character of `input` that does not fit into the
/// width `transform_type`.
pub fn unsupported_characters(input: &str, transform_type: TransformType) -> (r: Vec<Diagnostic>)
    ensures
        reports_unsupported(r@, input@, transform_type),
{
    let n: usize = input.unicode_len();
    let max: u32 = transform_type.max_char();
    let mut found: Vec<Diagnostic> = Vec::new();
    let mut offset: usize = 0;
    for c in it: input.chars()
        invariant
            n == input@.len(),
            it.seq() == input@,
            offset == it.index(),
            offset <= n,
            max == transform_type.max_scalar(),
            reports_unsupported(found@, input@.take(offset as int), transform_type),
    {
        let ghost before = input@.take(offset as int);
        let ghost after = input@.take(offset + 1);
        proof {
            assert(after.drop_last() == before);
            lemma_offsets_in_bounds(before, transform_type);
            assert forall|o: int| 0 <= o < before.len() implies after[o] == before[o] by {}
        }
        assert(c == after.last());
        if scalar_value(c) > max {
            found.push(Diagnostic::new(c, offset));
        }
        offset = offset + 1;
    }
    assert(input@.take(n as int) == input@);
    found
}

/// Reads 8-bit units as integers.
pub open spec fn narrow_values(v: Seq<i8>) -> Seq<int> {
    v.map_values(|x: i8| x as int)
}

/// Reads 16-bit units as integers.
pub open spec fn wide_values(v: Seq<i16>) -> Seq<int> {
    v.map_values(|x: i16| x as int)
}

/// Encodes `input`, all of whose characters fit into 8 bits, as a
/// null-terminated array of signed 8-bit units.
fn narrow_units(input: &str) -> (r: Vec<i8>)
    requires
        fits(input@, TransformType::CString),
    ensures
        narrow_values(r@) == encoding(input@, TransformType::CString),
        r@.len() == input@.len() + 1,
{
    let mut units: Vec<i8> = Vec::new();
    for c in it: input.chars()
        invariant
            it.seq() == input@,
            fits(input@, TransformType::CString),
            units@.len() == it.index(),
            forall|j: int| 0 <= j < units@.len() ==> units@[j] as int == encoding(input@, TransformType::CString)[j],
    {
        assert(c == input@[units@.len() as int]);
        units.push(narrow_unit(c));
    }
    units.push(0i8);
    assert(narrow_values(units@) == encoding(input@, TransformType::CString));
    units
}

/// Encodes `input`, all of whose characters fit into 16 bits, as a
/// null-terminated array of signed 16-bit units.
fn wide_units(input: &str) -> (r: Vec<i16>)
    requires
        fits(input@, TransformType::CWString),
    ensures
        wide_values(r@) == encoding(input@, TransformType::CWString),
        r@.len() == input@.len() + 1,
{
    let mut units: Vec<i16> = Vec::new();
    for c in it: input.chars()
        invariant
            it.seq() == input@,
            fits(input@, TransformType::CWString),
            units@.len() == it.index(),
            forall|j: int| 0 <= j < units@.len() ==> units@[j] as int == encoding(input@, TransformType::CWString)[j],
    {
        assert(c == input@[units@.len() as int]);
        units.push(wide_unit(c));
    }
    units.push(0i16);
    assert(wide_values(units@) == encoding(input@, TransformType::CWString));
    units
}

/// Each reported offset points into `s`, at a character above the maximum.
pub proof fn lemma_offsets_in_bounds(s: Seq<char>, t: TransformType)
    ensures
        forall|k: int|
            0 <= k < unsupported_offsets(s, t).len() ==> {
                let o = #[trigger] unsupported_offsets(s, t)[k];
                &&& 0 <= o < s.len()
                &&& s[o] as int > t.max_scalar()
            },
    decreases s.len(),
{
    if s.len() > 0 {
        let init = s.drop_last();
        lemma_offsets_in_bounds(init, t);
        let offsets = unsupported_offsets(s, t);
        assert forall|k: int| 0 <= k < offsets.len() implies {
            &&& 0 <= offsets[k] < s.len()
            &&& s[offsets[k]] as int > t.max_scalar()
        } by {
            if k < unsupported_offsets(init, t).len() {
                assert(offsets[k] == unsupported_offsets(init, t)[k]);
                assert(init[offsets[k]] == s[offsets[k]]);
            }
        }
    }
}

/// There are no diagnostics exactly when every character fits.
pub proof fn lemma_no_diagnostics_iff_fits(s: Seq<char>, t: TransformType)
    ensures
        unsupported_offsets(s, t).len() == 0 <==> fits(s, t),
    decreases s.len(),
{
    if s.len() > 0 {
        let init = s.drop_last();
        lemma_no_diagnostics_iff_fits(init, t);
        if s.last() as int > t.max_scalar() {
            assert(!(s[s.len() - 1] as int <= t.max_scalar()));
        } else if fits(init, t) {
            assert forall|i: int| 0 <= i < s.len() implies s[i] as int <= t.max_scalar() by {
                if i < s.len() - 1 {
                    assert(init[i] == s[i]);
                }
            }
        } else {
            let i = choose|i: int| 0 <= i < init.len() && !(init[i] as int <= t.max_scalar());
            assert(init[i] == s[i]);
        }
    }
}

/// Encodes `input` as a null-terminated narrow C string: one signed 8-bit
/// unit per character, then `0`. Fails with one diagnostic per character
/// above 0xff.
pub fn real_c_string(input: &str) -> (r: Result<Vec<i8>, Vec<Diagnostic>>)
    ensures
        r is Ok <==> fits(input@, TransformType::CString),
        r matches Ok(v) ==> narrow_values(v@) == encoding(input@, TransformType::CString),
        r matches Ok(v) ==> v@.len() == input@.len() + 1,
        r matches Err(d) ==> reports_unsupported(d@, input@, TransformType::CString),
{
    let found = unsupported_characters(input, TransformType::CString);
    proof {
        lemma_no_diagnostics_iff_fits(input@, TransformType::CString);
    }
    if found.len() == 0 {
        Ok(narrow_units(input))
    } else {
        Err(found)
    }
}

/// Encodes `input` as a null-terminated wide C string: one signed 16-bit
/// unit per character, then `0`. Fails with one diagnostic per character
/// above 0xffff.
pub fn real_c_wstring(input: &str) -> (r: Result<Vec<i16>, Vec<Diagnostic>>)
    ensures
        r is Ok <==> fits(input@, TransformType::CWString),
        r matches Ok(v) ==> wide_values(v@) == encoding(input@, TransformType::CWString),
        r matches Ok(v) ==> v@.len() == input@.len() + 1,
        r matches Err(d) ==> reports_unsupported(d@, input@, TransformType::CWString),
{
    let found = unsupported_characters(input, TransformType::CWString);
    proof {
        lemma_no_diagnostics_iff_fits(input@, TransformType::CWString);
    }
    if found.len() == 0 {
        Ok(wide_units(input))
    } else {
        Err(found)
    }
}

/// A null-terminated C string, tagged with its unit width.
#[derive(Debug, PartialEq, Eq)]
pub enum CStringArtifact {
    /// Units of a `char` string.
    Narrow(Vec<i8>),
    /// Units of a `wchar_t` string.
    Wide(Vec<i16>),
}

impl CStringArtifact {
    /// The width of the units.
    pub open spec fn width(self) -> TransformType {
        match self {
            CStringArtifact::Narrow(_) => TransformType::CString,
            CStringArtifact::Wide(_) => TransformType::CWString,
        }
    }

    /// The units as integers, terminator included.
    pub open spec fn units(self) -> Seq<int> {
        match self {
            CStringArtifact::Narrow(v) => narrow_values(v@),
            CStringArtifact::Wide(v) => wide_values(v@),
        }
    }

    /// Returns the width of the units.
    pub fn transform_type(&self) -> (r: TransformType)
        ensures
            r == self.width(),
    {
        match self {
            CStringArtifact::Narrow(_) => TransformType::CString,
            CStringArtifact::Wide(_) => TransformType::CWString,
        }
    }

    /// Returns the number of units, terminator included.
    pub fn len(&self) -> (r: usize)
        ensures
            r == self.units().len(),
    {
        match self {
            CStringArtifact::Narrow(v) => v.len(),
            CStringArtifact::Wide(v) => v.len(),
        }
    }

    /// Returns the unit at `index`, widened to `i32`.
    pub fn unit(&self, index: usize) -> (r: i32)
        requires
            index < self.units().len(),
        ensures
            r as int == self.units()[index as int],
    {
        match self {
            CStringArtifact::Narrow(v) => v[index] as i32,
            CStringArtifact::Wide(v) => v[index] as i32,
        }
    }
}

/// `r` is what encoding `s` at width `t` must give: the C string of `t`
/// units when every character fits, else a report of every one that does not.
pub open spec fn transformed(s: Seq<char>, t: TransformType, r: Result<CStringArtifact, Vec<Diagnostic>>) -> bool {
    &&& r is Ok <==> fits(s, t)
    &&& r matches Ok(a) ==> a.width() == t && a.units() == encoding(s, t)
    &&& r matches Err(d) ==> reports_unsupported(d@, s, t)
}

/// Encodes `input` as a null-terminated C string of `transform_type` units,
/// or reports every character that does not fit into them.
pub fn transform(input: &str, transform_type: TransformType) -> (r: Result<
    CStringArtifact,
    Vec<Diagnostic>,
>)
    ensures
        transformed(input@, transform_type, r),
{
    match transform_type {
        TransformType::CString => match real_c_string(input) {
            Ok(v) => Ok(CStringArtifact::Narrow(v)),
            Err(d) => Err(d),
        },
        TransformType::CWString => match real_c_wstring(input) {
            Ok(v) => Ok(CStringArtifact::Wide(v)),
            Err(d) => Err(d),
        },
    }
}

} // verus!
