//! One record of a variant file: its chromosome, position and first sample's
//! genotype, and the allele dosage that the genotype stands for.

use crate::chromosome::{has_chr_prefix, normalized};
use crate::text::{fields, parse_position, read_position, split_fields, to_chars};
use vstd::prelude::*;
use vstd::slice::{slice_subrange, slice_to_vec};

verus! {

/// The least number of tab-separated fields of a well-formed record: the
/// fixed columns up to the first sample's genotype.
pub const MIN_FIELDS: usize = 10;

/// The number of effect alleles that a genotype carries, where the genotype
/// can be read.
#[derive(Clone, Copy, Debug, PartialEq, Eq, Structural)]
pub enum Dosage {
    Zero,
    One,
    Two,
    Unresolvable,
}

impl Dosage {
    /// The dosage as a number; none where the genotype could not be read.
    pub open spec fn spec_count(self) -> Option<u8> {
        match self {
            Dosage::Zero => Some(0u8),
            Dosage::One => Some(1u8),
            Dosage::Two => Some(2u8),
            Dosage::Unresolvable => None,
        }
    }

    /// The dosage as a number; none where the genotype could not be read.
    #[verifier::when_used_as_spec(spec_count)]
    pub fn count(self) -> (n: Option<u8>)
        ensures
            n == self.spec_count(),
    {
        match self {
            Dosage::Zero => Some(0u8),
            Dosage::One => Some(1u8),
            Dosage::Two => Some(2u8),
            Dosage::Unresolvable => None,
        }
    }
}

/// The dosage that a genotype text stands for. The first character decides:
/// `0` gives zero whatever follows; `1` gives two where the third character
/// is `1` too, and one otherwise; anything else, the empty text included,
/// cannot be resolved.
pub open spec fn dosage_of(genotype: Seq<char>) -> Dosage {
    if genotype.len() == 0 {
        Dosage::Unresolvable
    } else if genotype[0] == '0' {
        Dosage::Zero
    } else if genotype[0] == '1' {
        if genotype.len() > 2 && genotype[2] == '1' {
            Dosage::Two
        } else {
            Dosage::One
        }
    } else {
        Dosage::Unresolvable
    }
}

/// Reads the dosage off the characters of a genotype field.
pub fn dosage_of_chars(genotype: &[char]) -> (dosage: Dosage)
    ensures
        dosage == dosage_of(genotype@),
{
    if genotype.len() == 0 {
        Dosage::Unresolvable
    } else if genotype[0] == '0' {
        Dosage::Zero
    } else if genotype[0] == '1' {
        if genotype.len() > 2 && genotype[2] == '1' {
            Dosage::Two
        } else {
            Dosage::One
        }
    } else {
        Dosage::Unresolvable
    }
}

/// Reads the dosage off a genotype field.
pub fn resolve_dosage(genotype: &str) -> (dosage: Dosage)
    ensures
        dosage == dosage_of(genotype@),
{
    let chars = to_chars(genotype);
    dosage_of_chars(chars.as_slice())
}

/// What a well-formed record says: the canonical chromosome label, the
/// position, and the genotype text of the first sample.
pub struct DecodedVariant {
    pub chromosome: Vec<char>,
    pub position: u32,
    pub genotype: Vec<char>,
}

/// The mathematical content of a [`DecodedVariant`].
pub struct DecodedVariantView {
    pub chromosome: Seq<char>,
    pub position: u32,
    pub genotype: Seq<char>,
}

impl View for DecodedVariant {
    type V = DecodedVariantView;

    open spec fn view(&self) -> DecodedVariantView {
        DecodedVariantView {
            chromosome: self.chromosome@,
            position: self.position,
            genotype: self.genotype@,
        }
    }
}

/// The variant that a line decodes to. A line with fewer than ten fields, or
/// whose second field is not a 32-bit unsigned number, is malformed and
/// decodes to nothing.
pub open spec fn decoded(line: Seq<char>) -> Option<DecodedVariantView> {
    let parts = fields(line);
    if parts.len() < MIN_FIELDS {
        None
    } else {
        match parse_position(parts[1]) {
            None => None,
            Some(position) => Some(
                DecodedVariantView {
                    chromosome: normalized(parts[0]),
                    position,
                    genotype: parts[9],
                },
            ),
        }
    }
}

/// Decodes the characters of one line.
pub fn decode_chars(line: &[char]) -> (variant: Option<DecodedVariant>)
    ensures
        match variant {
            Some(v) => decoded(line@) == Some(v@),
            None => decoded(line@) is None,
        },
{
    let bounds = split_fields(line);
    if bounds.len() < MIN_FIELDS {
        return None;
    }
    let label_at = bounds[0];
    let position_at = bounds[1];
    let genotype_at = bounds[9];
    match read_position(slice_subrange(line, position_at.0, position_at.1)) {
        None => None,
        Some(position) => {
            let label = slice_subrange(line, label_at.0, label_at.1);
            let canonical = if has_chr_prefix(label) {
                proof {
                    assert(label@.subrange(3, label@.len() as int) =~= label@.skip(3));
                }
                slice_subrange(label, 3, label.len())
            } else {
                label
            };
            let genotype = slice_subrange(line, genotype_at.0, genotype_at.1);
            Some(
                DecodedVariant {
                    chromosome: slice_to_vec(canonical),
                    position,
                    genotype: slice_to_vec(genotype),
                },
            )
        },
    }
}

/// Decodes one line of a variant file.
pub fn decode_line(line: &str) -> (variant: Option<DecodedVariant>)
    ensures
        match variant {
            Some(v) => decoded(line@) == Some(v@),
            None => decoded(line@) is None,
        },
{
    let chars = to_chars(line);
    decode_chars(chars.as_slice())
}

} // verus!
