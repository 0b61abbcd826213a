//! Scoring a whole file: every line is classified on a worker pool, and the
//! classifications are folded into one tally.

use crate::chromosome::{detect_vcf_chr_format, detected_format, line_texts};
use crate::laws::lemma_tally_counts;
use crate::tally::{
    classify_line, combined, contribution, identity, outcome_of, record_count, tally_of, Outcome,
    Tally, TallyView,
};
use crate::weights::{WeightMap, WeightTable};
use rayon::iter::{IntoParallelRefIterator, ParallelIterator};
use vstd::prelude::*;

verus! {

/// The result of a scoring run: the tally of the file's records, and whether
/// the file names its chromosomes with the `chr` prefix. The flag is
/// informational; it has no part in how records are matched.
pub struct ScoreReport {
    pub tally: Tally,
    pub chr_format: bool,
}

impl ScoreReport {
    /// The report is that of the file with these lines, scored against these
    /// weights.
    pub open spec fn is_score_of(&self, lines: Seq<Seq<char>>, weights: WeightMap) -> bool {
        &&& self.tally@ == tally_of(lines, weights)
        &&& self.chr_format == detected_format(lines)
    }
}

/// Classifies every line, in parallel.
///
/// Trusted: the body hands the lines to rayon's `par_iter`, `map` and
/// `collect`. The contract claims what rayon documents of them on a slice:
/// the closure is applied to each item once, and the collected vector holds
/// the results in the order of the items. What the closure returns for a line
/// is the verified contract of [`classify_line`].
#[verifier::external_body]
fn classify_all(lines: &[String], effect_weights: &WeightTable) -> (outcomes: Vec<Outcome>)
    ensures
        outcomes@.len() == lines@.len(),
        forall|i: int|
            0 <= i < lines@.len() ==> #[trigger] outcomes@[i] == outcome_of(
                lines@[i]@,
                effect_weights@,
            ),
{
    lines.par_iter().map(|line| classify_line(line.as_str(), effect_weights)).collect()
}

/// The tally of a sequence of classified lines: their contributions,
/// combined in order.
pub open spec fn folded(outcomes: Seq<Outcome>) -> TallyView
    decreases outcomes.len(),
{
    if outcomes.len() == 0 {
        identity()
    } else {
        combined(folded(outcomes.drop_last()), contribution(outcomes.last()))
    }
}

/// Folds classified lines into one tally, in order.
pub fn fold_outcomes(outcomes: &[Outcome]) -> (tally: Tally)
    ensures
        tally@ == folded(outcomes@),
        tally@.total_records <= outcomes@.len(),
{
    let mut tally = Tally::empty();
    let mut i: usize = 0;
    proof {
        assert(outcomes@.take(0) =~= Seq::<Outcome>::empty());
    }
    while i < outcomes.len()
        invariant
            i <= outcomes@.len(),
            tally@ == folded(outcomes@.take(i as int)),
            tally@.matched_records <= tally@.total_records <= i,
        decreases outcomes@.len() - i,
    {
        proof {
            assert(outcomes@.take(i + 1).drop_last() =~= outcomes@.take(i as int));
        }
        let added = Tally::of_outcome(outcomes[i]);
        tally = tally.combine(added);
        i = i + 1;
    }
    proof {
        assert(outcomes@.take(i as int) =~= outcomes@);
    }
    tally
}

/// Folding the classifications of the lines gives the tally of the lines.
pub proof fn lemma_folded_is_tally(
    outcomes: Seq<Outcome>,
    lines: Seq<Seq<char>>,
    weights: WeightMap,
)
    requires
        outcomes.len() == lines.len(),
        forall|i: int| 0 <= i < lines.len() ==> #[trigger] outcomes[i] == outcome_of(lines[i], weights),
    ensures
        folded(outcomes) == tally_of(lines, weights),
    decreases lines.len(),
{
    if lines.len() > 0 {
        lemma_folded_is_tally(outcomes.drop_last(), lines.drop_last(), weights);
        assert(outcomes.last() == outcomes[outcomes.len() - 1]);
    }
}

/// Scores the lines of a variant file against a table of effect weights.
///
/// Header lines are left out. Every other line counts as one record; a record
/// that is well-formed, has a weight under its key and a genotype that
/// resolves counts as matched and adds its hit.
pub fn score_lines(lines: &[String], effect_weights: &WeightTable) -> (report: ScoreReport)
    ensures
        report.is_score_of(line_texts(lines@), effect_weights@),
        report.tally@.total_records == record_count(line_texts(lines@)),
        report.tally@.matched_records <= report.tally@.total_records,
        report.tally@.matched_records == report.tally@.hits.len(),
{
    let chr_format = detect_vcf_chr_format(lines);
    let outcomes = classify_all(lines, effect_weights);
    let tally = fold_outcomes(outcomes.as_slice());
    proof {
        lemma_folded_is_tally(outcomes@, line_texts(lines@), effect_weights@);
        lemma_tally_counts(line_texts(lines@), effect_weights@);
    }
    ScoreReport { tally, chr_format }
}

} // verus!
