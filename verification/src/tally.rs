//! What one record contributes to a score, and the tally that the
//! contributions are folded into.
//!
//! A tally counts the records seen and the records matched, and lists one hit
//! per matched record: the weight found for it and its dosage. The score of a
//! tally is the sum, over its hits, of weight times dosage; the sum itself is
//! left to the caller, who owns the arithmetic on weights.

use crate::chromosome::{is_header, is_header_line};
use crate::record::{decode_chars, decoded, dosage_of, dosage_of_chars};
use crate::text::to_chars;
use crate::weights::{WeightMap, WeightTable};
use vstd::prelude::*;

verus! {

/// A matched record: the bit pattern of the weight found under its key, and
/// its dosage, which is 0, 1 or 2.
#[derive(Clone, Copy, Debug, PartialEq, Eq, Structural)]
pub struct Hit {
    pub weight_bits: u32,
    pub dosage: u8,
}

/// How one line was classified.
#[derive(Clone, Copy, Debug, PartialEq, Eq, Structural)]
pub enum Outcome {
    /// A header or comment line; it is not a record and counts nowhere.
    Header,
    /// A record that adds no hit: malformed, without a weight under its key,
    /// or with a genotype that cannot be resolved.
    Unmatched,
    /// A record with a weight under its key and a resolved dosage.
    Matched(Hit),
}

/// The running result of a scoring run.
pub struct Tally {
    pub total_records: usize,
    pub matched_records: usize,
    pub hits: Vec<Hit>,
}

/// The mathematical content of a [`Tally`].
pub struct TallyView {
    pub total_records: nat,
    pub matched_records: nat,
    pub hits: Seq<Hit>,
}

impl View for Tally {
    type V = TallyView;

    open spec fn view(&self) -> TallyView {
        TallyView {
            total_records: self.total_records as nat,
            matched_records: self.matched_records as nat,
            hits: self.hits@,
        }
    }
}

impl TallyView {
    /// There is one hit per matched record, and no more matched records than
    /// records.
    pub open spec fn wf(self) -> bool {
        self.matched_records == self.hits.len() && self.matched_records <= self.total_records
    }

    /// Two tallies that differ at most in the order of their hits.
    pub open spec fn same_totals(self, other: TallyView) -> bool {
        &&& self.total_records == other.total_records
        &&& self.matched_records == other.matched_records
        &&& self.hits.to_multiset() == other.hits.to_multiset()
    }
}

/// The tally of nothing.
pub open spec fn identity() -> TallyView {
    TallyView { total_records: 0, matched_records: 0, hits: Seq::empty() }
}

/// Two tallies taken together: the counts add up, and the hits of the second
/// follow those of the first.
pub open spec fn combined(a: TallyView, b: TallyView) -> TallyView {
    TallyView {
        total_records: a.total_records + b.total_records,
        matched_records: a.matched_records + b.matched_records,
        hits: a.hits + b.hits,
    }
}

/// The hit that a record adds, if it adds one: the record is well-formed, the
/// table holds a weight under its (canonical chromosome, position), and its
/// genotype resolves to a dosage.
pub open spec fn record_hit(line: Seq<char>, weights: WeightMap) -> Option<Hit> {
    match decoded(line) {
        None => None,
        Some(variant) => {
            let key = (variant.chromosome, variant.position);
            if weights.contains_key(key) {
                match dosage_of(variant.genotype).spec_count() {
                    None => None,
                    Some(dosage) => Some(Hit { weight_bits: weights[key], dosage }),
                }
            } else {
                None
            }
        },
    }
}

/// How a line is classified against a table.
pub open spec fn outcome_of(line: Seq<char>, weights: WeightMap) -> Outcome {
    if is_header(line) {
        Outcome::Header
    } else {
        match record_hit(line, weights) {
            None => Outcome::Unmatched,
            Some(hit) => Outcome::Matched(hit),
        }
    }
}

/// What a classified line adds to a tally: a header nothing, an unmatched
/// record one record, a matched record one record, one match and its hit.
pub open spec fn contribution(outcome: Outcome) -> TallyView {
    match outcome {
        Outcome::Header => identity(),
        Outcome::Unmatched => TallyView { total_records: 1, matched_records: 0, hits: Seq::empty() },
        Outcome::Matched(hit) => TallyView { total_records: 1, matched_records: 1, hits: seq![hit] },
    }
}

/// What a record adds to a tally, whatever its first character.
pub open spec fn record_contribution(
    line: Seq<char>,
    weights: WeightMap,
) -> TallyView {
    match record_hit(line, weights) {
        None => contribution(Outcome::Unmatched),
        Some(hit) => contribution(Outcome::Matched(hit)),
    }
}

/// The tally of a file: the contributions of its lines, combined in order.
pub open spec fn tally_of(lines: Seq<Seq<char>>, weights: WeightMap) -> TallyView
    decreases lines.len(),
{
    if lines.len() == 0 {
        identity()
    } else {
        combined(
            tally_of(lines.drop_last(), weights),
            contribution(outcome_of(lines.last(), weights)),
        )
    }
}

/// The number of records of a file: its lines that are not headers.
pub open spec fn record_count(lines: Seq<Seq<char>>) -> nat {
    lines.filter(|line: Seq<char>| !is_header(line)).len()
}

impl Tally {
    /// The tally of nothing.
    pub fn empty() -> (tally: Tally)
        ensures
            tally@ == identity(),
    {
        Tally { total_records: 0, matched_records: 0, hits: Vec::new() }
    }

    /// What one classified line adds.
    pub fn of_outcome(outcome: Outcome) -> (tally: Tally)
        ensures
            tally@ == contribution(outcome),
    {
        match outcome {
            Outcome::Header => Tally::empty(),
            Outcome::Unmatched => Tally { total_records: 1, matched_records: 0, hits: Vec::new() },
            Outcome::Matched(hit) => {
                let mut hits: Vec<Hit> = Vec::new();
                hits.push(hit);
                proof {
                    assert(hits@ =~= seq![hit]);
                }
                Tally { total_records: 1, matched_records: 1, hits }
            },
        }
    }

    /// Takes two tallies together.
    pub fn combine(self, other: Tally) -> (sum: Tally)
        requires
            self.total_records + other.total_records <= usize::MAX,
            self.matched_records + other.matched_records <= usize::MAX,
        ensures
            sum@ == combined(self@, other@),
    {
        let mut hits = self.hits;
        let mut more = other.hits;
        hits.append(&mut more);
        Tally {
            total_records: self.total_records + other.total_records,
            matched_records: self.matched_records + other.matched_records,
            hits,
        }
    }
}

/// Looks for the hit that a record adds: decodes the line, looks its key up
/// and resolves its genotype.
pub fn match_record(line: &[char], effect_weights: &WeightTable) -> (hit: Option<Hit>)
    ensures
        hit == record_hit(line@, effect_weights@),
{
    match decode_chars(line) {
        None => None,
        Some(variant) => {
            match effect_weights.get(variant.chromosome.as_slice(), variant.position) {
                None => None,
                Some(weight_bits) => {
                    match dosage_of_chars(variant.genotype.as_slice()).count() {
                        None => None,
                        Some(dosage) => Some(Hit { weight_bits, dosage }),
                    }
                },
            }
        },
    }
}

/// Classifies one line against the table.
pub fn classify_line(line: &str, effect_weights: &WeightTable) -> (outcome: Outcome)
    ensures
        outcome == outcome_of(line@, effect_weights@),
{
    let chars = to_chars(line);
    if is_header_line(chars.as_slice()) {
        Outcome::Header
    } else {
        match match_record(chars.as_slice(), effect_weights) {
            None => Outcome::Unmatched,
            Some(hit) => Outcome::Matched(hit),
        }
    }
}

/// Works out what one record adds to a tally. The line is taken as a record
/// whatever its first character: headers are set apart before this step.
pub fn process_line(line: &str, effect_weights: &WeightTable) -> (added: Tally)
    ensures
        added@ == record_contribution(line@, effect_weights@),
{
    let chars = to_chars(line);
    match match_record(chars.as_slice(), effect_weights) {
        None => Tally::of_outcome(Outcome::Unmatched),
        Some(hit) => Tally::of_outcome(Outcome::Matched(hit)),
    }
}

} // verus!
