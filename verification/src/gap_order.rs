//! The order gaps are reported in: by package, then by source file, then by
//! expected test file, each compared as text.
use vstd::prelude::*;
use crate::missing_test_gap::MissingTestGap;
use crate::order::{lex_less, chars_less, lemma_lex_transitive, lemma_lex_asymmetric, lemma_lex_irreflexive};
use crate::text::chars_of;

verus! {

/// Whether gap `x` comes strictly before gap `y`; the expected test file is
/// compared only when `by_test` holds.
pub open spec fn gap_before(x: MissingTestGap, y: MissingTestGap, by_test: bool) -> bool {
    lex_less(x.package_name@, y.package_name@) || (x.package_name@ == y.package_name@ && (lex_less(
        x.relative_source_file@,
        y.relative_source_file@,
    ) || (x.relative_source_file@ == y.relative_source_file@ && by_test && lex_less(
        x.expected_test_file@,
        y.expected_test_file@,
    ))))
}

/// Whether no gap of the sequence comes strictly before one placed ahead of
/// it.
pub open spec fn gaps_sorted(gaps: Seq<MissingTestGap>, by_test: bool) -> bool {
    forall|i: int, j: int|
        0 <= i < j < gaps.len() ==> !gap_before(#[trigger] gaps[j], #[trigger] gaps[i], by_test)
}

pub proof fn lemma_gap_before_transitive(
    x: MissingTestGap,
    y: MissingTestGap,
    z: MissingTestGap,
    by_test: bool,
)
    requires
        gap_before(x, y, by_test),
        gap_before(y, z, by_test),
    ensures
        gap_before(x, z, by_test),
{
    let (xp, yp, zp) = (x.package_name@, y.package_name@, z.package_name@);
    let (xs, ys, zs) = (x.relative_source_file@, y.relative_source_file@, z.relative_source_file@);
    let (xt, yt, zt) = (x.expected_test_file@, y.expected_test_file@, z.expected_test_file@);
    if lex_less(xp, yp) && lex_less(yp, zp) {
        lemma_lex_transitive(xp, yp, zp);
    } else if xp == yp && yp == zp {
        if lex_less(xs, ys) && lex_less(ys, zs) {
            lemma_lex_transitive(xs, ys, zs);
        } else if xs == ys && ys == zs {
            lemma_lex_transitive(xt, yt, zt);
        }
    }
}

pub proof fn lemma_gap_before_asymmetric(x: MissingTestGap, y: MissingTestGap, by_test: bool)
    ensures
        !(gap_before(x, y, by_test) && gap_before(y, x, by_test)),
{
    lemma_lex_asymmetric(x.package_name@, y.package_name@);
    lemma_lex_asymmetric(x.relative_source_file@, y.relative_source_file@);
    lemma_lex_asymmetric(x.expected_test_file@, y.expected_test_file@);
    lemma_lex_irreflexive(x.package_name@);
    lemma_lex_irreflexive(x.relative_source_file@);
}

fn text_less(a: &String, b: &String) -> (r: bool)
    ensures
        r == lex_less(a@, b@),
{
    let ca = chars_of(a.as_str());
    let cb = chars_of(b.as_str());
    chars_less(ca.as_slice(), cb.as_slice())
}

/// Whether gap `x` comes strictly before gap `y`.
pub fn gap_precedes(x: &MissingTestGap, y: &MissingTestGap, by_test: bool) -> (r: bool)
    ensures
        r == gap_before(*x, *y, by_test),
{
    if text_less(&x.package_name, &y.package_name) {
        return true;
    }
    if x.package_name != y.package_name {
        return false;
    }
    if text_less(&x.relative_source_file, &y.relative_source_file) {
        return true;
    }
    if x.relative_source_file != y.relative_source_file {
        return false;
    }
    by_test && text_less(&x.expected_test_file, &y.expected_test_file)
}

/// The gaps reordered so that none comes before one placed ahead of it;
/// gaps that tie keep their relative order.
pub fn sort_gaps(gaps: Vec<MissingTestGap>, by_test: bool) -> (r: Vec<MissingTestGap>)
    ensures
        r@.to_multiset() == gaps@.to_multiset(),
        gaps_sorted(r@, by_test),
{
    broadcast use vstd::seq_lib::group_to_multiset_ensures;

    let ghost all = gaps@;
    assert(all.len() == gaps.len());
    let mut rest = gaps;
    let mut out: Vec<MissingTestGap> = Vec::new();
    let mut k: usize = 0;
    assert(all.take(0) =~= Seq::<MissingTestGap>::empty());
    while rest.len() > 0
        invariant
            k <= all.len(),
            all.len() <= usize::MAX,
            k + rest@.len() == all.len(),
            rest@ == all.skip(k as int),
            out@.to_multiset() == all.take(k as int).to_multiset(),
            gaps_sorted(out@, by_test),
        decreases rest.len(),
    {
        let x = rest.remove(0);
        proof {
            assert(x == all[k as int]);
            assert(rest@ =~= all.skip(k + 1));
            assert(all.take(k + 1) =~= all.take(k as int).push(x));
        }
        let mut p: usize = 0;
        while p < out.len() && !gap_precedes(&x, &out[p], by_test)
            invariant
                p <= out.len(),
                forall|q: int| 0 <= q < p ==> !gap_before(x, #[trigger] out@[q], by_test),
            decreases out.len() - p,
        {
            p = p + 1;
        }
        let ghost before = out@;
        proof {
            assert forall|j: int| p <= j < before.len() implies !gap_before(
                #[trigger] before[j],
                x,
                by_test,
            ) by {
                lemma_gap_before_asymmetric(x, before[p as int], by_test);
                if j > p && gap_before(before[j], x, by_test) {
                    lemma_gap_before_transitive(before[j], x, before[p as int], by_test);
                }
            }
        }
        out.insert(p, x);
        proof {
            assert(out@ =~= before.insert(p as int, x));
            vstd::seq_lib::to_multiset_insert(before, p as int, x);
            vstd::seq_lib::to_multiset_build(all.take(k as int), x);
            assert(all.take(k as int).push(x).to_multiset() == all.take(k as int).to_multiset().insert(
                x,
            ));
            assert(out@.to_multiset() == all.take(k + 1).to_multiset());
            assert forall|a: int, b: int| 0 <= a < b < out@.len() implies !gap_before(
                #[trigger] out@[b],
                #[trigger] out@[a],
                by_test,
            ) by {
                if b < p {
                } else if a < p && b == p {
                } else if a < p {
                    assert(out@[b] == before[b - 1]);
                } else if a == p {
                    assert(out@[b] == before[b - 1]);
                } else {
                    assert(out@[a] == before[a - 1]);
                    assert(out@[b] == before[b - 1]);
                }
            }
        }
        k = k + 1;
    }
    assert(all.take(k as int) =~= all);
    out
}

} // verus!
