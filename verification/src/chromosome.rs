//! Chromosome labels: the canonical form used as a lookup key, and the
//! naming convention that a file follows.

use crate::text::{fields, has_prefix, split_fields, to_chars};
use vstd::prelude::*;
use vstd::slice::slice_subrange;
use vstd::string::StrSliceExecFns;

verus! {

/// The naming prefix that some files put before a chromosome label.
pub open spec fn chr_prefix() -> Seq<char> {
    seq!['c', 'h', 'r']
}

/// The canonical form of a label: the label without one leading `chr`, or the
/// label itself where it does not begin with `chr`. The match is
/// case-sensitive.
pub open spec fn normalized(label: Seq<char>) -> Seq<char> {
    if has_prefix(label, chr_prefix()) {
        label.skip(3)
    } else {
        label
    }
}

/// A header or comment line: one that begins with `#`.
pub open spec fn is_header(line: Seq<char>) -> bool {
    line.len() > 0 && line[0] == '#'
}

/// The first line that is not a header, if there is one.
pub open spec fn first_record(lines: Seq<Seq<char>>) -> Option<Seq<char>>
    decreases lines.len(),
{
    if lines.len() == 0 {
        None
    } else if !is_header(lines[0]) {
        Some(lines[0])
    } else {
        first_record(lines.skip(1))
    }
}

/// Whether a file names its chromosomes with the prefix: the first field of
/// its first record begins with `chr`. A file without records does not.
pub open spec fn detected_format(lines: Seq<Seq<char>>) -> bool {
    match first_record(lines) {
        Some(line) => has_prefix(fields(line)[0], chr_prefix()),
        None => false,
    }
}

/// The text of each line.
pub open spec fn line_texts(lines: Seq<String>) -> Seq<Seq<char>> {
    Seq::new(lines.len(), |i: int| lines[i]@)
}

/// Headers at the front of a file do not change which record is first.
pub proof fn lemma_first_record_after_headers(lines: Seq<Seq<char>>, n: int)
    requires
        0 <= n <= lines.len(),
        forall|i: int| 0 <= i < n ==> is_header(#[trigger] lines[i]),
    ensures
        first_record(lines) == first_record(lines.skip(n)),
    decreases n,
{
    if n == 0 {
        assert(lines.skip(0) =~= lines);
    } else {
        assert(is_header(lines[0]));
        let rest = lines.skip(1);
        assert forall|i: int| 0 <= i < n - 1 implies is_header(#[trigger] rest[i]) by {
            assert(rest[i] == lines[i + 1]);
        }
        lemma_first_record_after_headers(rest, n - 1);
        assert(rest.skip(n - 1) =~= lines.skip(n));
    }
}

/// A file of headers alone has no first record.
pub proof fn lemma_only_headers_no_record(lines: Seq<Seq<char>>)
    requires
        forall|i: int| 0 <= i < lines.len() ==> is_header(#[trigger] lines[i]),
    ensures
        first_record(lines) is None,
        !detected_format(lines),
{
    lemma_first_record_after_headers(lines, lines.len() as int);
    assert(lines.skip(lines.len() as int).len() == 0);
}

/// Tests whether `text` begins with `chr`.
pub fn has_chr_prefix(text: &[char]) -> (yes: bool)
    ensures
        yes == has_prefix(text@, chr_prefix()),
{
    if text.len() < 3 {
        return false;
    }
    let yes = text[0] == 'c' && text[1] == 'h' && text[2] == 'r';
    proof {
        if yes {
            assert(text@.take(3) =~= chr_prefix());
        } else {
            assert(text@.take(3)[0] == text@[0]);
            assert(text@.take(3)[1] == text@[1]);
            assert(text@.take(3)[2] == text@[2]);
        }
    }
    yes
}

/// Tests whether `line` is a header or comment line.
pub fn is_header_line(line: &[char]) -> (yes: bool)
    ensures
        yes == is_header(line@),
{
    line.len() > 0 && line[0] == '#'
}

/// Brings a chromosome label to its canonical form.
pub fn normalize_chromosome<'a>(label: &'a str) -> (canonical: &'a str)
    ensures
        canonical@ == normalized(label@),
{
    let chars = to_chars(label);
    if has_chr_prefix(chars.as_slice()) {
        proof {
            assert(label@.subrange(3, label@.len() as int) =~= label@.skip(3));
        }
        label.substring_char(3, chars.len())
    } else {
        label
    }
}

/// Decides from the first record of a file whether its chromosome labels carry
/// the `chr` prefix.
pub fn detect_vcf_chr_format(lines: &[String]) -> (flag: bool)
    ensures
        flag == detected_format(line_texts(lines@)),
{
    let ghost texts = line_texts(lines@);
    let mut i: usize = 0;
    while i < lines.len()
        invariant
            i <= lines@.len(),
            texts == line_texts(lines@),
            forall|j: int| 0 <= j < i ==> is_header(#[trigger] texts[j]),
        decreases lines@.len() - i,
    {
        let chars = to_chars(lines[i].as_str());
        if !is_header_line(chars.as_slice()) {
            let bounds = split_fields(chars.as_slice());
            proof {
                lemma_first_record_after_headers(texts, i as int);
                assert(texts.skip(i as int)[0] == chars@);
            }
            let first = bounds[0];
            return has_chr_prefix(slice_subrange(chars.as_slice(), first.0, first.1));
        }
        i = i + 1;
    }
    proof {
        lemma_only_headers_no_record(texts);
    }
    false
}

} // verus!
