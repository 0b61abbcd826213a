use polygenic_score::score::{fold_outcomes, score_lines};
use polygenic_score::tally::{classify_line, match_record, process_line, Hit, Outcome, Tally};
use polygenic_score::weights::WeightTable;

fn lines(items: &[&str]) -> Vec<String> {
    items.iter().map(|s| s.to_string()).collect()
}

fn chars(s: &str) -> Vec<char> {
    s.chars().collect()
}

fn table(entries: &[(&str, u32, f32)]) -> WeightTable {
    let mut t = WeightTable::new();
    for (chromosome, position, weight) in entries {
        t.insert(chromosome, *position, weight.to_bits());
    }
    t
}

fn score_of(tally: &Tally) -> f64 {
    tally
        .hits
        .iter()
        .map(|hit| f64::from(f32::from_bits(hit.weight_bits)) * f64::from(hit.dosage))
        .sum()
}

fn record(chromosome: &str, position: &str, genotype: &str) -> String {
    format!("{}\t{}\trs1\tA\tG\t.\t.\t.\tGT\t{}", chromosome, position, genotype)
}

#[test]
fn table_returns_what_was_stored() {
    let t = table(&[("7", 1000, 0.5), ("X", 1000, 1.5), ("7", 2000, -2.0)]);
    assert_eq!(t.get(&chars("7"), 1000), Some(0.5f32.to_bits()));
    assert_eq!(t.get(&chars("X"), 1000), Some(1.5f32.to_bits()));
    assert_eq!(t.get(&chars("7"), 2000), Some((-2.0f32).to_bits()));
    assert_eq!(t.get(&chars("8"), 1000), None);
    assert_eq!(t.get(&chars("7"), 1001), None);
    assert_eq!(t.get(&chars("chr7"), 1000), None);
}

#[test]
fn table_replaces_the_weight_of_a_key() {
    let mut t = table(&[("7", 1000, 0.5), ("X", 1000, 1.5)]);
    t.insert("7", 1000, 42);
    assert_eq!(t.get(&chars("7"), 1000), Some(42));
    assert_eq!(t.get(&chars("X"), 1000), Some(1.5f32.to_bits()));
    t.insert("X", 1000, 43);
    t.insert("7", 1000, 44);
    assert_eq!(t.get(&chars("7"), 1000), Some(44));
    assert_eq!(t.get(&chars("X"), 1000), Some(43));
}

#[test]
fn empty_table_holds_nothing() {
    let t = WeightTable::new();
    assert_eq!(t.get(&chars("7"), 1000), None);
    assert_eq!(t.get(&chars(""), 0), None);
}

#[test]
fn single_homozygous_record_scores_twice_its_weight() {
    let t = table(&[("7", 1000, 0.5)]);
    let report = score_lines(&lines(&["chr7\t1000\tA\tG\t.\t.\t.\t.\tGT\t1/1"]), &t);
    assert_eq!(score_of(&report.tally), 1.0);
    assert_eq!(report.tally.total_records, 1);
    assert_eq!(report.tally.matched_records, 1);
    assert_eq!(report.tally.hits, vec![Hit { weight_bits: 0.5f32.to_bits(), dosage: 2 }]);
    assert!(report.chr_format);
}

#[test]
fn total_counts_every_line_that_is_no_header() {
    let t = table(&[("1", 10, 1.0)]);
    let input = lines(&[
        "##fileformat=VCFv4.2",
        "#CHROM\tPOS",
        &record("1", "10", "1/0"),
        "",
        "short\tline",
        &record("1", "x", "1/1"),
        &record("1", "10", "./."),
        &record("2", "10", "1/1"),
        "#late comment",
    ]);
    let report = score_lines(&input, &t);
    assert_eq!(report.tally.total_records, 6);
    assert_eq!(report.tally.matched_records, 1);
    assert_eq!(report.tally.hits.len(), 1);
    assert_eq!(score_of(&report.tally), 1.0);
    assert!(!report.chr_format);
}

#[test]
fn empty_table_matches_nothing() {
    let t = WeightTable::new();
    let input = lines(&[&record("chr1", "10", "1/1"), &record("2", "20", "1/0"), "#x", "bad"]);
    let report = score_lines(&input, &t);
    assert_eq!(report.tally.total_records, 3);
    assert_eq!(report.tally.matched_records, 0);
    assert!(report.tally.hits.is_empty());
    assert_eq!(score_of(&report.tally), 0.0);
}

#[test]
fn only_headers_score_nothing() {
    let t = table(&[("1", 10, 1.0)]);
    let report = score_lines(&lines(&["##a", "#chr1\t10", "#"]), &t);
    assert_eq!(report.tally.total_records, 0);
    assert_eq!(report.tally.matched_records, 0);
    assert!(report.tally.hits.is_empty());
    assert_eq!(score_of(&report.tally), 0.0);
    assert!(!report.chr_format);
}

#[test]
fn no_lines_score_nothing() {
    let t = table(&[("1", 10, 1.0)]);
    let report = score_lines(&lines(&[]), &t);
    assert_eq!(report.tally.total_records, 0);
    assert_eq!(report.tally.matched_records, 0);
    assert!(report.tally.hits.is_empty());
    assert!(!report.chr_format);
}

#[test]
fn order_of_records_does_not_change_the_result() {
    let t = table(&[("1", 10, 0.25), ("2", 20, 0.5), ("X", 30, -1.0)]);
    let a = record("chr1", "10", "1/1");
    let b = record("2", "20", "1/0");
    let c = record("X", "30", "1|1");
    let d = record("3", "40", "1/1");
    let forward = score_lines(&lines(&["#h", &a, &b, &c, &d]), &t);
    let backward = score_lines(&lines(&[&d, &c, "#h", &b, &a]), &t);
    assert_eq!(forward.tally.total_records, 4);
    assert_eq!(backward.tally.total_records, 4);
    assert_eq!(forward.tally.matched_records, 3);
    assert_eq!(backward.tally.matched_records, 3);
    let mut x: Vec<(u32, u8)> = forward.tally.hits.iter().map(|h| (h.weight_bits, h.dosage)).collect();
    let mut y: Vec<(u32, u8)> = backward.tally.hits.iter().map(|h| (h.weight_bits, h.dosage)).collect();
    x.sort();
    y.sort();
    assert_eq!(x, y);
    assert_eq!(score_of(&forward.tally), -1.0);
    assert_eq!(score_of(&backward.tally), -1.0);
}

#[test]
fn hits_come_in_the_order_of_the_lines() {
    let t = table(&[("1", 10, 0.25), ("2", 20, 0.5)]);
    let input = lines(&[&record("2", "20", "1/0"), &record("chr1", "10", "1/1"), &record("1", "10", "0/1")]);
    let report = score_lines(&input, &t);
    assert_eq!(
        report.tally.hits,
        vec![
            Hit { weight_bits: 0.5f32.to_bits(), dosage: 1 },
            Hit { weight_bits: 0.25f32.to_bits(), dosage: 2 },
            Hit { weight_bits: 0.25f32.to_bits(), dosage: 0 },
        ]
    );
    assert_eq!(report.tally.matched_records, 3);
    assert_eq!(score_of(&report.tally), 1.0);
}

#[test]
fn many_lines_are_all_counted() {
    let t = table(&[("1", 7, 1.0)]);
    let mut input: Vec<String> = Vec::new();
    for i in 0..5000u32 {
        if i % 10 == 0 {
            input.push(format!("#comment {}", i));
        } else {
            input.push(record("chr1", &(i % 8).to_string(), "1/1"));
        }
    }
    let report = score_lines(&input, &t);
    assert_eq!(report.tally.total_records, 4500);
    let expected = input.iter().filter(|l| l.starts_with("chr1\t7\t")).count();
    assert_eq!(report.tally.matched_records, expected);
    assert_eq!(score_of(&report.tally), 2.0 * expected as f64);
}

#[test]
fn zero_dosage_still_counts_as_matched() {
    let t = table(&[("7", 1000, 0.5)]);
    let report = score_lines(&lines(&[&record("7", "1000", "0/1")]), &t);
    assert_eq!(report.tally.total_records, 1);
    assert_eq!(report.tally.matched_records, 1);
    assert_eq!(score_of(&report.tally), 0.0);
}

#[test]
fn classify_line_tells_the_three_outcomes_apart() {
    let t = table(&[("7", 1000, 0.5)]);
    assert_eq!(classify_line("#chr7\t1000", &t), Outcome::Header);
    assert_eq!(classify_line(&record("7", "1001", "1/1"), &t), Outcome::Unmatched);
    assert_eq!(classify_line(&record("7", "1000", "./."), &t), Outcome::Unmatched);
    assert_eq!(classify_line("chr7\t1000", &t), Outcome::Unmatched);
    assert_eq!(
        classify_line(&record("chr7", "1000", "1/0"), &t),
        Outcome::Matched(Hit { weight_bits: 0.5f32.to_bits(), dosage: 1 })
    );
}

#[test]
fn match_record_finds_the_hit() {
    let t = table(&[("7", 1000, 0.5)]);
    assert_eq!(
        match_record(&chars(&record("chr7", "+1000", "1/1")), &t),
        Some(Hit { weight_bits: 0.5f32.to_bits(), dosage: 2 })
    );
    assert_eq!(match_record(&chars(&record("chr7", "1000", "2/1")), &t), None);
    assert_eq!(match_record(&chars(&record("chrchr7", "1000", "1/1")), &t), None);
}

#[test]
fn process_line_gives_the_contribution_of_a_record() {
    let t = table(&[("7", 1000, 0.5)]);
    let hit = process_line(&record("chr7", "1000", "1/1"), &t);
    assert_eq!((hit.total_records, hit.matched_records), (1, 1));
    assert_eq!(hit.hits, vec![Hit { weight_bits: 0.5f32.to_bits(), dosage: 2 }]);
    let miss = process_line(&record("chr8", "1000", "1/1"), &t);
    assert_eq!((miss.total_records, miss.matched_records), (1, 0));
    assert!(miss.hits.is_empty());
    let malformed = process_line("chr7", &t);
    assert_eq!((malformed.total_records, malformed.matched_records), (1, 0));
    assert!(malformed.hits.is_empty());
}

#[test]
fn tally_combine_adds_counts_and_joins_hits() {
    let a = Tally { total_records: 3, matched_records: 1, hits: vec![Hit { weight_bits: 1, dosage: 2 }] };
    let b = Tally { total_records: 2, matched_records: 2, hits: vec![Hit { weight_bits: 5, dosage: 0 }, Hit { weight_bits: 6, dosage: 1 }] };
    let sum = a.combine(b);
    assert_eq!(sum.total_records, 5);
    assert_eq!(sum.matched_records, 3);
    assert_eq!(
        sum.hits,
        vec![Hit { weight_bits: 1, dosage: 2 }, Hit { weight_bits: 5, dosage: 0 }, Hit { weight_bits: 6, dosage: 1 }]
    );
}

#[test]
fn tally_empty_is_an_identity() {
    let a = Tally { total_records: 3, matched_records: 1, hits: vec![Hit { weight_bits: 1, dosage: 2 }] };
    let left = Tally::empty().combine(a);
    assert_eq!((left.total_records, left.matched_records), (3, 1));
    assert_eq!(left.hits, vec![Hit { weight_bits: 1, dosage: 2 }]);
    let right = left.combine(Tally::empty());
    assert_eq!((right.total_records, right.matched_records), (3, 1));
    assert_eq!(right.hits, vec![Hit { weight_bits: 1, dosage: 2 }]);
}

#[test]
fn combine_is_associative_on_an_example() {
    let mk = |n: usize, bits: u32| Tally { total_records: n, matched_records: 1, hits: vec![Hit { weight_bits: bits, dosage: 1 }] };
    let left = mk(1, 10).combine(mk(2, 20)).combine(mk(3, 30));
    let right = mk(1, 10).combine(mk(2, 20).combine(mk(3, 30)));
    assert_eq!(left.total_records, right.total_records);
    assert_eq!(left.matched_records, right.matched_records);
    assert_eq!(left.hits, right.hits);
}

#[test]
fn fold_outcomes_counts_records_and_matches() {
    let hit = Hit { weight_bits: 9, dosage: 2 };
    let tally = fold_outcomes(&[Outcome::Header, Outcome::Unmatched, Outcome::Matched(hit), Outcome::Unmatched]);
    assert_eq!(tally.total_records, 3);
    assert_eq!(tally.matched_records, 1);
    assert_eq!(tally.hits, vec![hit]);
    let none = fold_outcomes(&[]);
    assert_eq!((none.total_records, none.matched_records), (0, 0));
}

#[test]
fn combine_is_commutative_up_to_the_order_of_hits() {
    let mk_a = || Tally { total_records: 4, matched_records: 2, hits: vec![Hit { weight_bits: 1, dosage: 2 }, Hit { weight_bits: 2, dosage: 1 }] };
    let mk_b = || Tally { total_records: 1, matched_records: 1, hits: vec![Hit { weight_bits: 3, dosage: 0 }] };
    let ab = mk_a().combine(mk_b());
    let ba = mk_b().combine(mk_a());
    assert_eq!(ab.total_records, ba.total_records);
    assert_eq!(ab.matched_records, ba.matched_records);
    let mut x: Vec<(u32, u8)> = ab.hits.iter().map(|h| (h.weight_bits, h.dosage)).collect();
    let mut y: Vec<(u32, u8)> = ba.hits.iter().map(|h| (h.weight_bits, h.dosage)).collect();
    x.sort();
    y.sort();
    assert_eq!(x, y);
}

#[test]
fn splitting_a_file_in_two_and_combining_gives_the_same_tally() {
    let t = table(&[("1", 10, 0.25), ("2", 20, 0.5)]);
    let all = lines(&[&record("1", "10", "1/1"), "#h", &record("2", "20", "1/0"), "bad", &record("chr2", "20", "1|1")]);
    let whole = score_lines(&all, &t).tally;
    let first = score_lines(&all[..2], &t).tally;
    let second = score_lines(&all[2..], &t).tally;
    let joined = first.combine(second);
    assert_eq!(whole.total_records, joined.total_records);
    assert_eq!(whole.matched_records, joined.matched_records);
    assert_eq!(whole.hits, joined.hits);
    assert_eq!(whole.total_records, 4);
    assert_eq!(whole.matched_records, 3);
}

#[test]
fn of_outcome_gives_the_contribution_of_each_outcome() {
    let header = Tally::of_outcome(Outcome::Header);
    assert_eq!((header.total_records, header.matched_records, header.hits.len()), (0, 0, 0));
    let unmatched = Tally::of_outcome(Outcome::Unmatched);
    assert_eq!((unmatched.total_records, unmatched.matched_records, unmatched.hits.len()), (1, 0, 0));
    let hit = Hit { weight_bits: 7, dosage: 1 };
    let matched = Tally::of_outcome(Outcome::Matched(hit));
    assert_eq!((matched.total_records, matched.matched_records), (1, 1));
    assert_eq!(matched.hits, vec![hit]);
}
