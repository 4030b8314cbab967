//! SNFEI generation: the Sub-National Federated Entity Identifier.
//!
//! The SNFEI is the SHA-256 digest, hex-encoded lowercase, of the
//! pipe-delimited hash string of a normalized canonical input.  Generation
//! also classifies the trust tier of the identifier: tier 1 when a LEI is
//! available, tier 2 when a SAM UEI is available, tier 3 when only raw
//! attributes back the identifier, with a confidence score derived from
//! which attributes were present.

use vstd::prelude::*;

use crate::hash::{is_hex_char, is_lower_hex_char, lemma_lower_hex_char, sha256_hex, sha256_hex_of};
use crate::normalizer::{build_canonical_input, canonical_input_model, hash_string_of, normal_text,
    word_count, CanonicalInput, CanonicalInputModel, has_more_than_three_words};
use crate::text::{join_comma, join_comma_strs, lower_seq, lower_str, str_eq};

verus! {

/// A validated SNFEI: a 64-character lowercase hexadecimal string.
#[derive(Debug, Clone, Hash)]
pub struct Snfei {
    value: String,
}

impl View for Snfei {
    type V = Seq<char>;

    closed spec fn view(&self) -> Seq<char> {
        self.value@
    }
}

impl Snfei {
    /// The value is exactly 64 lowercase hexadecimal characters.
    pub open spec fn wf(self) -> bool {
        self@.len() == 64 && forall|i: int| 0 <= i < self@.len() ==> is_lower_hex_char(#[trigger] self@[i])
    }

    /// Accepts an existing hash string if and only if it is 64 hexadecimal
    /// characters (either case); the stored value is lower-cased.
    pub fn from_hash(hash: &str) -> (r: Option<Self>)
        ensures
            r is Some <==> (hash@.len() == 64 && forall|i: int|
                0 <= i < hash@.len() ==> is_hex_char(#[trigger] hash@[i])),
            match r {
                Some(s) => s@ == lower_seq(hash@) && s.wf(),
                None => true,
            },
    {
        let n = hash.unicode_len();
        if n != 64 {
            return None;
        }
        let mut i: usize = 0;
        while i < n
            invariant
                n == hash@.len(),
                i <= n,
                forall|j: int| 0 <= j < i ==> is_hex_char(#[trigger] hash@[j]),
            decreases n - i,
        {
            let c = hash.get_char(i);
            let digit = '0' <= c && c <= '9';
            let lower = 'a' <= c && c <= 'f';
            let upper = 'A' <= c && c <= 'F';
            if !(digit || lower || upper) {
                return None;
            }
            i += 1;
        }
        let value = lower_str(hash);
        let r = Snfei { value };
        proof {
            assert forall|k: int| 0 <= k < r@.len() implies is_lower_hex_char(
                #[trigger] r@[k],
            ) by {
                lemma_lower_hex_char(hash@[k]);
            }
        }
        Some(r)
    }

    /// The hash value.
    pub fn value(&self) -> (r: &str)
        ensures
            r@ == self@,
    {
        self.value.as_str()
    }

    /// A shortened form for display: the first `length` characters
    /// followed by an ellipsis, or the whole value when it is short.
    pub fn short(&self, length: usize) -> (r: String)
        ensures
            r@ == if self@.len() <= length {
                self@
            } else {
                self@.take(length as int) + "..."@
            },
    {
        let n = self.value.unicode_len();
        if n <= length {
            self.value.clone()
        } else {
            let mut out = String::new();
            let mut i: usize = 0;
            while i < length
                invariant
                    n == self@.len(),
                    length < n,
                    i <= length,
                    out@ == self@.take(i as int),
                decreases length - i,
            {
                out.push(self.value.as_str().get_char(i));
                proof {
                    assert(out@ =~= self@.take(i as int + 1));
                }
                i += 1;
            }
            out.append("...");
            out
        }
    }
}

impl PartialEq for Snfei {
    /// Value-based equality on the underlying hex string.
    fn eq(&self, other: &Snfei) -> (r: bool) {
        str_eq(self.value.as_str(), other.value.as_str())
    }
}

impl Eq for Snfei {

}

impl vstd::std_specs::cmp::PartialEqSpecImpl for Snfei {
    open spec fn obeys_eq_spec() -> bool {
        true
    }

    open spec fn eq_spec(&self, other: &Snfei) -> bool {
        self@ == other@
    }
}

/// The SNFEI value of a canonical input: SHA-256 of its hash string.
pub open spec fn snfei_of(m: CanonicalInputModel) -> Seq<char> {
    sha256_hex_of(hash_string_of(m))
}

/// Computes the SNFEI of an already-normalized canonical input.
pub fn compute_snfei(canonical: &CanonicalInput) -> (r: Snfei)
    ensures
        r@ == snfei_of(canonical@),
        r.wf(),
{
    let hash_input = canonical.to_hash_string();
    let value = sha256_hex(hash_input.as_str());
    Snfei { value }
}

/// Generates an SNFEI from raw entity attributes: the main entry point.
/// The normalizing functor is applied to every input before hashing; the
/// canonical input is returned alongside the identifier for verification.
pub fn generate_snfei(
    legal_name: &str,
    country_code: &str,
    address: Option<&str>,
    registration_date: Option<&str>,
) -> (r: (Snfei, CanonicalInput))
    ensures
        r.1@ == canonical_input_model(
            legal_name@,
            country_code@,
            match address {
                Some(a) => Some(a@),
                None => None,
            },
            match registration_date {
                Some(d) => Some(d@),
                None => None,
            },
        ),
        r.0@ == snfei_of(r.1@),
        r.0.wf(),
{
    let canonical = build_canonical_input(legal_name, country_code, address, registration_date);
    let snfei = compute_snfei(&canonical);
    (snfei, canonical)
}

/// Generates an SNFEI and returns just the hex string.
pub fn generate_snfei_simple(legal_name: &str, country_code: &str, address: Option<&str>) -> (r:
    String)
    ensures
        r@ == snfei_of(
            canonical_input_model(
                legal_name@,
                country_code@,
                match address {
                    Some(a) => Some(a@),
                    None => None,
                },
                None,
            ),
        ),
{
    let (snfei, _) = generate_snfei(legal_name, country_code, address, None);
    snfei.value
}

/// Whether a supplied LEI qualifies for tier 1: present and exactly 20
/// characters.
pub open spec fn lei_qualifies(lei: Option<&str>) -> bool {
    match lei {
        Some(l) => l@.len() == 20,
        None => false,
    }
}

/// Whether a supplied SAM UEI qualifies for tier 2: present and exactly 12
/// characters.
pub open spec fn sam_qualifies(sam_uei: Option<&str>) -> bool {
    match sam_uei {
        Some(u) => u@.len() == 12,
        None => false,
    }
}

/// The tier 3 confidence score in hundredths: base 50, plus 20 for an
/// address, plus 20 for a registration date, plus 10 for a normalized name
/// of more than three words, capped at 90.
pub open spec fn tier3_confidence(has_addr: bool, has_date: bool, name_norm: Seq<char>) -> int {
    let raw = 50 + (if has_addr {
        20int
    } else {
        0int
    }) + (if has_date {
        20int
    } else {
        0int
    }) + (if word_count(name_norm) > 3 {
        10int
    } else {
        0int
    });
    if raw > 90 {
        90
    } else {
        raw
    }
}

/// Confidence bounds for tier 3: whatever attributes are present, the
/// score stays between 0.50 and 0.90; the cap keeps it strictly below the
/// registry-backed tiers.
pub proof fn lemma_tier3_confidence_bounds(has_addr: bool, has_date: bool, name_norm: Seq<char>)
    ensures
        50 <= tier3_confidence(has_addr, has_date, name_norm) <= 90,
{
}

/// The names of the fields that contributed to the identifier, in order:
/// the qualifying registry identifier first, then the base attributes,
/// then the optional attributes that were present (tier 3 only).
pub open spec fn spec_fields_used(
    tier1: bool,
    tier2: bool,
    has_addr: bool,
    has_date: bool,
) -> Seq<Seq<char>> {
    if tier1 {
        seq!["lei"@, "legal_name"@, "country_code"@]
    } else if tier2 {
        seq!["sam_uei"@, "legal_name"@, "country_code"@]
    } else {
        seq!["legal_name"@, "country_code"@] + (if has_addr {
            seq!["address"@]
        } else {
            Seq::empty()
        }) + (if has_date {
            seq!["registration_date"@]
        } else {
            Seq::empty()
        })
    }
}

/// The result of SNFEI generation with confidence metadata.
#[derive(Debug, Clone)]
pub struct SnfeiResult {
    /// The generated SNFEI.
    pub snfei: Snfei,
    /// The canonical inputs used.
    pub canonical: CanonicalInput,
    /// Confidence score in hundredths (50 means 0.50).
    pub confidence_hundredths: u8,
    /// Identifier tier (1, 2, or 3).
    pub tier: u8,
    /// Which fields contributed to the SNFEI.
    pub fields_used: Vec<String>,
}

/// The decimal digit character for a value below ten.
pub open spec fn digit_char(d: int) -> char
    recommends
        0 <= d <= 9,
{
    (((d + 48) as u8) as char)
}

/// The decimal rendering of a confidence held in hundredths: the units
/// digit, a point, and two decimals ("0.50", "0.95", "1.00").
pub open spec fn confidence_decimal(h: int) -> Seq<char>
    recommends
        0 <= h <= 100,
{
    seq![digit_char(h / 100), '.', digit_char(h / 10 % 10), digit_char(h % 10)]
}

/// Renders a confidence in hundredths with two decimal places.
fn confidence_string(h: u8) -> (r: String)
    requires
        h <= 100,
    ensures
        r@ == confidence_decimal(h as int),
{
    let mut out = String::new();
    out.push((h / 100 + 48) as char);
    out.push('.');
    out.push((h / 10 % 10 + 48) as char);
    out.push((h % 10 + 48) as char);
    proof {
        assert(out@ =~= confidence_decimal(h as int));
    }
    out
}

impl SnfeiResult {
    /// The tier is one of 1, 2, 3; the confidence is a percentage; the
    /// identifier is a well-formed SNFEI.
    pub open spec fn wf(self) -> bool {
        1 <= self.tier <= 3 && self.confidence_hundredths <= 100 && self.snfei.wf()
    }

    /// The result flattened to (key, value) string pairs, in a fixed
    /// order: identifier, confidence, tier, contributing fields, canonical
    /// hash string.
    pub fn to_map(&self) -> (r: Vec<(String, String)>)
        requires
            self.wf(),
        ensures
            r@.len() == 5,
            (r@[0].0)@ == "snfei"@ && (r@[0].1)@ == self.snfei@,
            (r@[1].0)@ == "confidence_score"@ && (r@[1].1)@ == confidence_decimal(
                self.confidence_hundredths as int,
            ),
            (r@[2].0)@ == "tier"@ && (r@[2].1)@ == seq![digit_char(self.tier as int)],
            (r@[3].0)@ == "fields_used"@ && (r@[3].1)@ == join_comma(self.fields_used.deep_view()),
            (r@[4].0)@ == "canonical_string"@ && (r@[4].1)@ == hash_string_of(self.canonical@),
    {
        let mut r: Vec<(String, String)> = Vec::new();
        r.push((String::from_str("snfei"), String::from_str(self.snfei.value())));
        r.push(
            (String::from_str("confidence_score"), confidence_string(self.confidence_hundredths)),
        );
        let mut tier_digit = String::new();
        tier_digit.push((self.tier + 48) as char);
        proof {
            assert(tier_digit@ =~= seq![digit_char(self.tier as int)]);
        }
        r.push((String::from_str("tier"), tier_digit));
        r.push((String::from_str("fields_used"), join_comma_strs(&self.fields_used)));
        r.push((String::from_str("canonical_string"), self.canonical.to_hash_string()));
        r
    }
}

/// Generates an SNFEI with confidence scoring and tier classification.
///
/// Tier 1 (LEI supplied, 20 characters): confidence 1.00.  Tier 2 (SAM
/// UEI supplied, 12 characters): confidence 0.95.  Tier 3 (attributes
/// only): base 0.50, plus 0.20 for an address, plus 0.20 for a
/// registration date, plus 0.10 for a name of more than three words,
/// capped at 0.90.  The SNFEI itself is computed the same way in every
/// tier.
pub fn generate_snfei_with_confidence(
    legal_name: &str,
    country_code: &str,
    address: Option<&str>,
    registration_date: Option<&str>,
    lei: Option<&str>,
    sam_uei: Option<&str>,
) -> (r: SnfeiResult)
    ensures
        r.canonical@ == canonical_input_model(
            legal_name@,
            country_code@,
            match address {
                Some(a) => Some(a@),
                None => None,
            },
            match registration_date {
                Some(d) => Some(d@),
                None => None,
            },
        ),
        r.snfei@ == snfei_of(r.canonical@),
        r.tier == if lei_qualifies(lei) {
            1int
        } else if sam_qualifies(sam_uei) {
            2int
        } else {
            3int
        },
        r.confidence_hundredths == if lei_qualifies(lei) {
            100int
        } else if sam_qualifies(sam_uei) {
            95int
        } else {
            tier3_confidence(address is Some, registration_date is Some, normal_text(legal_name@))
        },
        r.fields_used.deep_view() == spec_fields_used(
            lei_qualifies(lei),
            !lei_qualifies(lei) && sam_qualifies(sam_uei),
            address is Some,
            registration_date is Some,
        ),
        r.wf(),
{
    let canonical = build_canonical_input(legal_name, country_code, address, registration_date);
    let snfei = compute_snfei(&canonical);

    // Tier 1: a qualifying LEI is authoritative.
    let tier1 = match lei {
        Some(l) => l.unicode_len() == 20,
        None => false,
    };
    if tier1 {
        let fields_used = vec![
            String::from_str("lei"),
            String::from_str("legal_name"),
            String::from_str("country_code"),
        ];
        proof {
            assert(fields_used.deep_view() =~= spec_fields_used(true, false, address is Some,
                registration_date is Some));
        }
        return SnfeiResult {
            snfei,
            canonical,
            confidence_hundredths: 100,
            tier: 1,
            fields_used,
        };
    }

    // Tier 2: a qualifying SAM UEI.
    let tier2 = match sam_uei {
        Some(u) => u.unicode_len() == 12,
        None => false,
    };
    if tier2 {
        let fields_used = vec![
            String::from_str("sam_uei"),
            String::from_str("legal_name"),
            String::from_str("country_code"),
        ];
        proof {
            assert(fields_used.deep_view() =~= spec_fields_used(false, true, address is Some,
                registration_date is Some));
        }
        return SnfeiResult {
            snfei,
            canonical,
            confidence_hundredths: 95,
            tier: 2,
            fields_used,
        };
    }

    // Tier 3: confidence from the attributes that were available.
    let mut fields_used = vec![String::from_str("legal_name"), String::from_str("country_code")];
    let mut confidence: u8 = 50;

    if address.is_some() {
        fields_used.push(String::from_str("address"));
        confidence += 20;
    }

    if registration_date.is_some() {
        fields_used.push(String::from_str("registration_date"));
        confidence += 20;
    }

    // Bonus for longer, more specific names.
    if has_more_than_three_words(canonical.legal_name_normalized.as_str()) {
        confidence += 10;
    }

    // Cap at 0.90 for tier 3.
    if confidence > 90 {
        confidence = 90;
    }

    proof {
        assert(fields_used.deep_view() =~= spec_fields_used(false, false, address is Some,
            registration_date is Some));
    }
    SnfeiResult {
        snfei,
        canonical,
        confidence_hundredths: confidence,
        tier: 3,
        fields_used,
    }
}

/// Determinism of generation: any two results that satisfy the generator's
/// contract for the same inputs agree on the identifier and on every
/// canonical segment.  The contract pins both as functions of the inputs
/// alone, so two invocations with identical arguments produce identical
/// outputs.
pub proof fn lemma_generate_deterministic(
    legal_name: Seq<char>,
    country_code: Seq<char>,
    address: Option<Seq<char>>,
    registration_date: Option<Seq<char>>,
    r1: (Snfei, CanonicalInput),
    r2: (Snfei, CanonicalInput),
)
    requires
        r1.1@ == canonical_input_model(legal_name, country_code, address, registration_date),
        r1.0@ == snfei_of(r1.1@),
        r2.1@ == canonical_input_model(legal_name, country_code, address, registration_date),
        r2.0@ == snfei_of(r2.1@),
    ensures
        r1.0@ == r2.0@,
        r1.1@ == r2.1@,
{
}

/// Case-insensitivity of generation: two raw legal names with the same
/// lowercase folding normalize to the same canonical input, and therefore
/// to the same SNFEI, whatever the other attributes are.
pub proof fn lemma_generate_case_insensitive(
    name_a: Seq<char>,
    name_b: Seq<char>,
    country_code: Seq<char>,
    address: Option<Seq<char>>,
    registration_date: Option<Seq<char>>,
)
    requires
        lower_seq(name_a) == lower_seq(name_b),
    ensures
        canonical_input_model(name_a, country_code, address, registration_date)
            == canonical_input_model(name_b, country_code, address, registration_date),
        snfei_of(canonical_input_model(name_a, country_code, address, registration_date))
            == snfei_of(canonical_input_model(name_b, country_code, address, registration_date)),
{
}

} // verus!
