//! Properties that hold of every encoding.
use vstd::prelude::*;

verus! {

use crate::encoder::{
    encoding, fits, lemma_offsets_in_bounds, reports_unsupported, transformed,
    unsupported_offsets, CStringArtifact, Diagnostic,
};
use crate::width::{signed_unit, unsigned_unit, TransformType};

/// The empty string encodes, at either width, to the terminator alone.
pub proof fn lemma_empty_input(t: TransformType)
    ensures
        fits(Seq::<char>::empty(), t),
        encoding(Seq::<char>::empty(), t) == seq![0int],
{
    assert(encoding(Seq::<char>::empty(), t) =~= seq![0int]);
}

/// Encoding is deterministic: two results that both meet the contract of
/// `transform` for the same input and width are the same artifact, or the
/// same diagnostics.
pub proof fn lemma_deterministic(
    s: Seq<char>,
    t: TransformType,
    r1: Result<CStringArtifact, Vec<Diagnostic>>,
    r2: Result<CStringArtifact, Vec<Diagnostic>>,
)
    requires
        transformed(s, t, r1),
        transformed(s, t, r2),
    ensures
        r1 is Ok <==> r2 is Ok,
        r1 matches Ok(a1) ==> (r2 matches Ok(a2) && a1.width() == a2.width() && a1.units()
            == a2.units()),
        r1 matches Err(d1) ==> (r2 matches Err(d2) && d1@ == d2@),
{
    if let Err(d1) = r1 {
        if let Err(d2) = r2 {
            assert(reports_unsupported(d1@, s, t));
            assert(reports_unsupported(d2@, s, t));
            assert forall|k: int| 0 <= k < d1@.len() implies d1@[k] == d2@[k] by {
                assert(d1@[k].offset as int == unsupported_offsets(s, t)[k]);
                assert(d2@[k].offset as int == unsupported_offsets(s, t)[k]);
            }
            assert(d1@ =~= d2@);
        }
    }
}

/// Every successful encoding holds one unit per character plus the terminator.
pub proof fn lemma_length(s: Seq<char>, t: TransformType)
    ensures
        encoding(s, t).len() == s.len() + 1,
        encoding(s, t).last() == 0,
{
}

/// Reading each unit before the terminator back as unsigned gives the
/// scalar values of the input, when every character fits.
pub proof fn lemma_round_trip(s: Seq<char>, t: TransformType)
    requires
        fits(s, t),
    ensures
        encoding(s, t).drop_last().map_values(|u: int| unsigned_unit(u, t)) == s.map_values(
            |c: char| c as int,
        ),
{
    let back = encoding(s, t).drop_last().map_values(|u: int| unsigned_unit(u, t));
    assert forall|i: int| 0 <= i < s.len() implies back[i] == s[i] as int by {
        lemma_unit_round_trip(s[i], t);
    }
    assert(back =~= s.map_values(|c: char| c as int));
}

/// One character that fits comes back from its signed unit.
proof fn lemma_unit_round_trip(c: char, t: TransformType)
    requires
        c as int <= t.max_scalar(),
    ensures
        unsigned_unit(signed_unit(c as int, t), t) == c as int,
{
    let v = c as int;
    match t {
        TransformType::CString => {
            assert(unsigned_unit(signed_unit(v, t), t) == v) by (nonlinear_arith)
                requires
                    0 <= v <= 0xff,
                    signed_unit(v, t) == (if 2 * v < 0x100 { v } else { v - 0x100 }),
                    unsigned_unit(signed_unit(v, t), t) == signed_unit(v, t) % 0x100,
            ;
        },
        TransformType::CWString => {
            assert(unsigned_unit(signed_unit(v, t), t) == v) by (nonlinear_arith)
                requires
                    0 <= v <= 0xffff,
                    signed_unit(v, t) == (if 2 * v < 0x10000 { v } else { v - 0x10000 }),
                    unsigned_unit(signed_unit(v, t), t) == signed_unit(v, t) % 0x10000,
            ;
        },
    }
}

/// The diagnostics come in the order of the characters they name.
pub proof fn lemma_offsets_increasing(s: Seq<char>, t: TransformType)
    ensures
        forall|j: int, k: int|
            0 <= j < k < unsupported_offsets(s, t).len() ==> unsupported_offsets(s, t)[j]
                < unsupported_offsets(s, t)[k],
    decreases s.len(),
{
    if s.len() > 0 {
        let init = s.drop_last();
        lemma_offsets_increasing(init, t);
        lemma_offsets_in_bounds(init, t);
        let earlier = unsupported_offsets(init, t);
        let offsets = unsupported_offsets(s, t);
        assert forall|j: int, k: int| 0 <= j < k < offsets.len() implies offsets[j]
            < offsets[k] by {
            assert(offsets[j] == earlier[j]);
            if k < earlier.len() {
                assert(offsets[k] == earlier[k]);
            }
        }
    }
}

/// A character equal to the width's maximum fits; one above it does not, and
/// is reported at its offset.
pub proof fn lemma_boundary(t: TransformType, at_max: char, above_max: char)
    requires
        at_max as int == t.max_scalar(),
        above_max as int == t.max_scalar() + 1,
    ensures
        fits(seq![at_max], t),
        !fits(seq![above_max], t),
        unsupported_offsets(seq![above_max], t) == seq![0int],
{
    reveal_with_fuel(unsupported_offsets, 2);
    assert(seq![above_max][0] == above_max);
    assert(seq![above_max].drop_last() =~= Seq::<char>::empty());
    assert(unsupported_offsets(seq![above_max], t) =~= seq![0int]);
}

} // verus!
