//! The normalizing functor: a pure function from raw entity attributes to a
//! canonical input tuple.
//!
//! Free text (legal name, address) is trimmed, internal whitespace runs are
//! collapsed to a single space, and ASCII letters are folded to lowercase
//! (lowercase is the canonical folding direction of this implementation).
//! The country code is upper-cased; the registration date is passed through
//! as given.  Absent optional attributes become empty segments.

use vstd::prelude::*;

use crate::text::{count_char, count_char_str, is_space_char, lemma_count_char_concat,
    lemma_count_char_zero, lemma_lower_seq_idempotent, lower_seq, lower_str, upper_seq, upper_str};

verus! {

/// Whitespace collapsing as a left-to-right pass.  `started` records
/// whether a non-space character has been emitted yet (so leading spaces
/// are dropped); `pending` records whether a space is owed before the next
/// non-space character (so runs collapse to one space and trailing spaces
/// are never emitted).
pub open spec fn collapse_ws(s: Seq<char>, started: bool, pending: bool) -> Seq<char>
    decreases s.len(),
{
    if s.len() == 0 {
        Seq::empty()
    } else if is_space_char(s[0]) {
        collapse_ws(s.skip(1), started, pending || started)
    } else {
        (if pending {
            seq![' ']
        } else {
            Seq::empty()
        }) + seq![s[0]] + collapse_ws(s.skip(1), true, false)
    }
}

/// The normalized form of free text: ASCII letters folded to lowercase,
/// leading and trailing whitespace removed, internal whitespace runs
/// collapsed to a single space.
pub open spec fn normal_text(s: Seq<char>) -> Seq<char> {
    collapse_ws(lower_seq(s), false, false)
}

/// Trims and collapses whitespace in a string.
pub fn collapse_ws_str(s: &str) -> (r: String)
    ensures
        r@ == collapse_ws(s@, false, false),
{
    let n = s.unicode_len();
    let mut out = String::new();
    let mut started = false;
    let mut pending = false;
    let mut i: usize = 0;
    proof {
        assert(s@.skip(0) =~= s@);
    }
    while i < n
        invariant
            n == s@.len(),
            i <= n,
            collapse_ws(s@, false, false) == out@ + collapse_ws(s@.skip(i as int), started, pending),
        decreases n - i,
    {
        proof {
            assert(s@.skip(i as int).skip(1) =~= s@.skip(i as int + 1));
            assert(s@.skip(i as int)[0] == s@[i as int]);
        }
        let c = s.get_char(i);
        let ghost pre = out@;
        if c == ' ' || c == '\t' || c == '\n' || c == '\r' {
            pending = pending || started;
        } else {
            if pending {
                out.push(' ');
            }
            out.push(c);
            started = true;
            pending = false;
            proof {
                if pre.len() < out@.len() - 1 {
                    assert(out@ =~= pre + (seq![' '] + seq![c]));
                } else {
                    assert(out@ =~= pre + (Seq::<char>::empty() + seq![c]));
                }
            }
        }
        i += 1;
    }
    proof {
        assert(s@.skip(n as int) =~= Seq::<char>::empty());
    }
    out
}

/// Normalizes free text: lowercase folding, then whitespace collapsing.
pub fn normalize_text(s: &str) -> (r: String)
    ensures
        r@ == normal_text(s@),
{
    let lowered = lower_str(s);
    collapse_ws_str(lowered.as_str())
}

/// The ghost value of a canonical input: its four segments.
pub ghost struct CanonicalInputModel {
    pub legal_name: Seq<char>,
    pub address: Seq<char>,
    pub country: Seq<char>,
    pub date: Seq<char>,
}

/// The normalized canonical input tuple: the pre-image of the SNFEI hash.
/// Immutable once constructed; absent optional attributes are held as
/// empty strings, never dropped.
#[derive(Debug, Clone)]
pub struct CanonicalInput {
    /// Normalized legal name.
    pub legal_name_normalized: String,
    /// Normalized primary address, or empty when absent.
    pub address_normalized: String,
    /// ISO 3166-1 alpha-2 country code, upper-cased.
    pub country_code: String,
    /// ISO-8601 registration date as given, or empty when absent.
    pub registration_date: String,
}

impl View for CanonicalInput {
    type V = CanonicalInputModel;

    open spec fn view(&self) -> CanonicalInputModel {
        CanonicalInputModel {
            legal_name: self.legal_name_normalized@,
            address: self.address_normalized@,
            country: self.country_code@,
            date: self.registration_date@,
        }
    }
}

/// The canonical input built from raw attributes: name and address
/// normalized, country upper-cased, date passed through, absent optional
/// attributes as empty segments.
pub open spec fn canonical_input_model(
    legal_name: Seq<char>,
    country_code: Seq<char>,
    address: Option<Seq<char>>,
    registration_date: Option<Seq<char>>,
) -> CanonicalInputModel {
    CanonicalInputModel {
        legal_name: normal_text(legal_name),
        address: match address {
            Some(a) => normal_text(a),
            None => Seq::empty(),
        },
        country: upper_seq(country_code),
        date: match registration_date {
            Some(d) => d,
            None => Seq::empty(),
        },
    }
}

/// The hash input string: the four segments joined by pipes, in fixed
/// order, absent segments present but empty.
pub open spec fn hash_string_of(m: CanonicalInputModel) -> Seq<char> {
    m.legal_name + seq!['|'] + m.address + seq!['|'] + m.country + seq!['|'] + m.date
}

impl CanonicalInput {
    /// The pipe-delimited hash input: always exactly four segments in the
    /// fixed order name, address, country, date.
    pub fn to_hash_string(&self) -> (r: String)
        ensures
            r@ == hash_string_of(self@),
    {
        let mut out = String::new();
        out.append(self.legal_name_normalized.as_str());
        out.push('|');
        out.append(self.address_normalized.as_str());
        out.push('|');
        out.append(self.country_code.as_str());
        out.push('|');
        out.append(self.registration_date.as_str());
        proof {
            assert(out@ =~= hash_string_of(self@));
        }
        out
    }
}

/// Applies the normalizing functor to raw entity attributes.  Total: any
/// input strings are accepted and normalized as they are.
pub fn build_canonical_input(
    legal_name: &str,
    country_code: &str,
    address: Option<&str>,
    registration_date: Option<&str>,
) -> (r: CanonicalInput)
    ensures
        r@ == canonical_input_model(
            legal_name@,
            country_code@,
            match address {
                Some(a) => Some(a@),
                None => None,
            },
            match registration_date {
                Some(d) => Some(d@),
                None => None,
            },
        ),
{
    let legal_name_normalized = normalize_text(legal_name);
    let address_normalized = match address {
        Some(a) => normalize_text(a),
        None => String::new(),
    };
    let country = upper_str(country_code);
    let date = match registration_date {
        Some(d) => String::from_str(d),
        None => String::new(),
    };
    CanonicalInput {
        legal_name_normalized,
        address_normalized,
        country_code: country,
        registration_date: date,
    }
}

/// Case folding inside normalization: a text normalizes exactly as its
/// own lowercase form does, so any two case variants of the same text
/// normalize identically.
pub proof fn lemma_normal_text_case_fold(s: Seq<char>)
    ensures
        normal_text(lower_seq(s)) == normal_text(s),
{
    lemma_lower_seq_idempotent(s);
}

/// Equal outer parts of a concatenation pin the middle part.
proof fn lemma_concat_cancel(x: Seq<char>, m1: Seq<char>, m2: Seq<char>, y: Seq<char>)
    requires
        x + m1 + y == x + m2 + y,
    ensures
        m1 == m2,
{
    let s1 = x + m1 + y;
    let s2 = x + m2 + y;
    assert(s1.len() == s2.len());
    assert(m1.len() == m2.len());
    assert forall|i: int| 0 <= i < m1.len() implies m1[i] == m2[i] by {
        assert(s1[x.len() + i] == m1[i]);
        assert(s2[x.len() + i] == m2[i]);
    }
    assert(m1 =~= m2);
}

/// Sensitivity of the hash input to the legal name: two canonical inputs
/// that agree on the other three segments but differ in the name have
/// different hash strings.
pub proof fn lemma_hash_string_name_sensitive(a: CanonicalInputModel, b: CanonicalInputModel)
    requires
        a.address == b.address,
        a.country == b.country,
        a.date == b.date,
        a.legal_name != b.legal_name,
    ensures
        hash_string_of(a) != hash_string_of(b),
{
    if hash_string_of(a) == hash_string_of(b) {
        let y = seq!['|'] + a.address + seq!['|'] + a.country + seq!['|'] + a.date;
        assert(Seq::<char>::empty() + a.legal_name + y =~= hash_string_of(a));
        assert(Seq::<char>::empty() + b.legal_name + y =~= hash_string_of(b));
        lemma_concat_cancel(Seq::empty(), a.legal_name, b.legal_name, y);
    }
}

/// Sensitivity of the hash input to the address segment: adding or
/// changing an address changes the hash string.
pub proof fn lemma_hash_string_address_sensitive(a: CanonicalInputModel, b: CanonicalInputModel)
    requires
        a.legal_name == b.legal_name,
        a.country == b.country,
        a.date == b.date,
        a.address != b.address,
    ensures
        hash_string_of(a) != hash_string_of(b),
{
    if hash_string_of(a) == hash_string_of(b) {
        let x = a.legal_name + seq!['|'];
        let y = seq!['|'] + a.country + seq!['|'] + a.date;
        assert(x + a.address + y =~= hash_string_of(a));
        assert(x + b.address + y =~= hash_string_of(b));
        lemma_concat_cancel(x, a.address, b.address, y);
    }
}

/// Sensitivity of the hash input to the country segment.
pub proof fn lemma_hash_string_country_sensitive(a: CanonicalInputModel, b: CanonicalInputModel)
    requires
        a.legal_name == b.legal_name,
        a.address == b.address,
        a.date == b.date,
        a.country != b.country,
    ensures
        hash_string_of(a) != hash_string_of(b),
{
    if hash_string_of(a) == hash_string_of(b) {
        let x = a.legal_name + seq!['|'] + a.address + seq!['|'];
        let y = seq!['|'] + a.date;
        assert(x + a.country + y =~= hash_string_of(a));
        assert(x + b.country + y =~= hash_string_of(b));
        lemma_concat_cancel(x, a.country, b.country, y);
    }
}

/// Sensitivity of the hash input to the registration date segment: adding
/// or changing a date changes the hash string.
pub proof fn lemma_hash_string_date_sensitive(a: CanonicalInputModel, b: CanonicalInputModel)
    requires
        a.legal_name == b.legal_name,
        a.address == b.address,
        a.country == b.country,
        a.date != b.date,
    ensures
        hash_string_of(a) != hash_string_of(b),
{
    if hash_string_of(a) == hash_string_of(b) {
        let x = a.legal_name + seq!['|'] + a.address + seq!['|'] + a.country + seq!['|'];
        let y = Seq::<char>::empty();
        assert(x + a.date + y =~= hash_string_of(a));
        assert(x + b.date + y =~= hash_string_of(b));
        lemma_concat_cancel(x, a.date, b.date, y);
    }
}

/// The hash input of a canonical input whose segments hold no pipe has
/// exactly three pipes: the four segments are position-stable.
pub proof fn lemma_hash_string_pipe_count(m: CanonicalInputModel)
    requires
        forall|i: int| 0 <= i < m.legal_name.len() ==> m.legal_name[i] != '|',
        forall|i: int| 0 <= i < m.address.len() ==> m.address[i] != '|',
        forall|i: int| 0 <= i < m.country.len() ==> m.country[i] != '|',
        forall|i: int| 0 <= i < m.date.len() ==> m.date[i] != '|',
    ensures
        count_char(hash_string_of(m), '|') == 3,
{
    let p = seq!['|'];
    assert(count_char(p, '|') == 1) by {
        assert(p.skip(1) =~= Seq::<char>::empty());
        assert(count_char(Seq::<char>::empty(), '|') == 0);
    }
    lemma_count_char_zero(m.legal_name, '|');
    lemma_count_char_zero(m.address, '|');
    lemma_count_char_zero(m.country, '|');
    lemma_count_char_zero(m.date, '|');
    lemma_count_char_concat(m.legal_name, p, '|');
    lemma_count_char_concat(m.legal_name + p, m.address, '|');
    lemma_count_char_concat(m.legal_name + p + m.address, p, '|');
    lemma_count_char_concat(m.legal_name + p + m.address + p, m.country, '|');
    lemma_count_char_concat(m.legal_name + p + m.address + p + m.country, p, '|');
    lemma_count_char_concat(m.legal_name + p + m.address + p + m.country + p, m.date, '|');
}

/// How many whitespace-delimited words a normalized text has: one more
/// than its space count, or none when it is empty.
pub open spec fn word_count(s: Seq<char>) -> nat {
    if s.len() == 0 {
        0
    } else {
        count_char(s, ' ') + 1
    }
}

/// Whether a normalized text has strictly more than three words.
pub fn has_more_than_three_words(s: &str) -> (r: bool)
    ensures
        r == (word_count(s@) > 3),
{
    let n = s.unicode_len();
    if n == 0 {
        return false;
    }
    let spaces = count_char_str(s, ' ');
    spaces >= 3
}

} // verus!
