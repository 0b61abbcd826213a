//! Laws of tallies: combining is associative with an identity and
//! commutative up to the order of hits, and the tally of a file does not
//! depend on how its lines are split up or ordered.

use crate::chromosome::{detected_format, is_header, lemma_only_headers_no_record};
use crate::tally::{
    combined, contribution, identity, outcome_of, record_count, tally_of, Hit, TallyView,
};
use crate::weights::WeightMap;
use vstd::prelude::*;

verus! {

/// Combining is associative.
pub proof fn lemma_combined_associative(a: TallyView, b: TallyView, c: TallyView)
    ensures
        combined(combined(a, b), c) == combined(a, combined(b, c)),
{
    assert((a.hits + b.hits) + c.hits =~= a.hits + (b.hits + c.hits));
}

/// The empty tally is an identity of combining, on both sides.
pub proof fn lemma_combined_identity(a: TallyView)
    ensures
        combined(identity(), a) == a,
        combined(a, identity()) == a,
{
    assert(Seq::<Hit>::empty() + a.hits =~= a.hits);
    assert(a.hits + Seq::<Hit>::empty() =~= a.hits);
}

/// Combining is commutative: the two orders give the same counts and the
/// same hits, which may come in another order.
pub proof fn lemma_combined_commutative(a: TallyView, b: TallyView)
    ensures
        combined(a, b).same_totals(combined(b, a)),
{
    vstd::seq_lib::lemma_seq_union_to_multiset_commutative(a.hits, b.hits);
}

/// The tally of a file counts each record once, never more matches than
/// records, and lists one hit per match, each with a dosage of at most two.
pub proof fn lemma_tally_counts(lines: Seq<Seq<char>>, weights: WeightMap)
    ensures
        tally_of(lines, weights).total_records == record_count(lines),
        tally_of(lines, weights).wf(),
        forall|i: int|
            0 <= i < tally_of(lines, weights).hits.len() ==> (#[trigger] tally_of(
                lines,
                weights,
            ).hits[i]).dosage <= 2,
    decreases lines.len(),
{
    reveal(Seq::filter);
    if lines.len() > 0 {
        lemma_tally_counts(lines.drop_last(), weights);
    }
}

/// The tally of two files one after the other is the tallies of the two,
/// combined: the lines can be split between workers at any place.
pub proof fn lemma_tally_concat(
    first: Seq<Seq<char>>,
    second: Seq<Seq<char>>,
    weights: WeightMap,
)
    ensures
        tally_of(first + second, weights) == combined(
            tally_of(first, weights),
            tally_of(second, weights),
        ),
    decreases second.len(),
{
    if second.len() == 0 {
        assert(first + second =~= first);
        lemma_combined_identity(tally_of(first, weights));
    } else {
        assert((first + second).drop_last() =~= first + second.drop_last());
        assert((first + second).last() == second.last());
        lemma_tally_concat(first, second.drop_last(), weights);
        lemma_combined_associative(
            tally_of(first, weights),
            tally_of(second.drop_last(), weights),
            contribution(outcome_of(second.last(), weights)),
        );
    }
}

/// Taking one line out of a file and adding its contribution at the end
/// gives the same counts and the same hits.
pub proof fn lemma_tally_remove(
    lines: Seq<Seq<char>>,
    at: int,
    weights: WeightMap,
)
    requires
        0 <= at < lines.len(),
    ensures
        tally_of(lines, weights).same_totals(
            combined(
                tally_of(lines.remove(at), weights),
                contribution(outcome_of(lines[at], weights)),
            ),
        ),
{
    let head = lines.take(at);
    let one = seq![lines[at]];
    let tail = lines.skip(at + 1);
    let moved = contribution(outcome_of(lines[at], weights));
    assert(lines =~= (head + one) + tail);
    assert(lines.remove(at) =~= head + tail);
    lemma_tally_concat(head + one, tail, weights);
    lemma_tally_concat(head, one, weights);
    lemma_tally_concat(head, tail, weights);
    assert(tally_of(one, weights) == moved) by {
        assert(one.drop_last() =~= Seq::<Seq<char>>::empty());
        assert(one.last() == lines[at]);
        assert(tally_of(one.drop_last(), weights) == identity());
        lemma_combined_identity(moved);
    }
    let h = tally_of(head, weights).hits;
    let t = tally_of(tail, weights).hits;
    vstd::seq_lib::lemma_multiset_commutative(h + moved.hits, t);
    vstd::seq_lib::lemma_multiset_commutative(h, moved.hits);
    vstd::seq_lib::lemma_multiset_commutative(h + t, moved.hits);
    vstd::seq_lib::lemma_multiset_commutative(h, t);
    assert(((h + moved.hits) + t).to_multiset() =~= ((h + t) + moved.hits).to_multiset());
}

/// Order independence: two files with the same lines, in whatever order,
/// have the same record count, the same match count and the same hits.
pub proof fn lemma_tally_permutation(
    lines: Seq<Seq<char>>,
    shuffled: Seq<Seq<char>>,
    weights: WeightMap,
)
    requires
        lines.to_multiset() == shuffled.to_multiset(),
    ensures
        tally_of(lines, weights).same_totals(tally_of(shuffled, weights)),
    decreases lines.len(),
{
    lines.to_multiset_ensures();
    shuffled.to_multiset_ensures();
    if lines.len() == 0 {
        assert(shuffled.len() == 0);
    } else {
        let last = lines.last();
        let rest = lines.drop_last();
        rest.to_multiset_ensures();
        assert(lines =~= rest.push(last));
        assert(lines.to_multiset().count(last) > 0);
        assert(shuffled.contains(last));
        let at = choose|at: int| 0 <= at < shuffled.len() && shuffled[at] == last;
        let others = shuffled.remove(at);
        assert(rest.to_multiset() =~= others.to_multiset());
        lemma_tally_permutation(rest, others, weights);
        lemma_tally_remove(shuffled, at, weights);
        let moved = contribution(outcome_of(last, weights));
        vstd::seq_lib::lemma_multiset_commutative(tally_of(rest, weights).hits, moved.hits);
        vstd::seq_lib::lemma_multiset_commutative(tally_of(others, weights).hits, moved.hits);
    }
}

/// Against a table without weights no record matches.
pub proof fn lemma_empty_table_matches_nothing(
    lines: Seq<Seq<char>>,
    weights: WeightMap,
)
    requires
        weights.dom() == Set::<(Seq<char>, u32)>::empty(),
    ensures
        tally_of(lines, weights).matched_records == 0,
        tally_of(lines, weights).hits == Seq::<Hit>::empty(),
    decreases lines.len(),
{
    if lines.len() > 0 {
        lemma_empty_table_matches_nothing(lines.drop_last(), weights);
        assert(!(outcome_of(lines.last(), weights) is Matched));
        assert(tally_of(lines, weights).hits =~= Seq::<Hit>::empty());
    }
}

/// A file of headers alone has no records, no matches and no hits, and its
/// format flag is off.
pub proof fn lemma_only_headers_score_nothing(
    lines: Seq<Seq<char>>,
    weights: WeightMap,
)
    requires
        forall|i: int| 0 <= i < lines.len() ==> is_header(#[trigger] lines[i]),
    ensures
        tally_of(lines, weights) == identity(),
        !detected_format(lines),
    decreases lines.len(),
{
    lemma_only_headers_no_record(lines);
    if lines.len() > 0 {
        assert(is_header(lines[lines.len() - 1]));
        assert forall|i: int| 0 <= i < lines.drop_last().len() implies is_header(
            #[trigger] lines.drop_last()[i],
        ) by {
            assert(lines.drop_last()[i] == lines[i]);
        }
        lemma_only_headers_score_nothing(lines.drop_last(), weights);
        lemma_combined_identity(identity());
    }
}

} // verus!
