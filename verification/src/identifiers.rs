//! Entity identifier types: validated registry identifiers, and the
//! collection of all known identifiers for an entity with its canonical
//! encoding and primary-identifier resolution.

use vstd::prelude::*;

use crate::canonical::{escape_json, insert_if_present, insert_required, Canonicalize,
    canonical_string_of_map, FieldMap};
use crate::hash::{is_hex_char, sha256_hex, sha256_hex_of};
use crate::text::{join_comma, join_comma_strs, lemma_lex_trans, lex_lt, lower_seq, lower_str,
    str_lex_lt, upper_seq, upper_str};

verus! {

/// An ASCII decimal digit.
pub open spec fn is_digit_char(c: char) -> bool {
    '0' <= c && c <= '9'
}

/// An ASCII uppercase letter.
pub open spec fn is_upper_char(c: char) -> bool {
    'A' <= c && c <= 'Z'
}

/// An ASCII letter or digit.
pub open spec fn is_alnum_char(c: char) -> bool {
    is_digit_char(c) || is_upper_char(c) || ('a' <= c && c <= 'z')
}

/// SAM.gov Unique Entity Identifier: 12 characters, uppercase letters and
/// digits.
#[derive(Debug, Clone, Hash)]
pub struct SamUei {
    value: String,
}

impl View for SamUei {
    type V = Seq<char>;

    closed spec fn view(&self) -> Seq<char> {
        self.value@
    }
}

impl SamUei {
    /// Accepts a candidate if and only if it is 12 uppercase-alphanumeric
    /// characters; the value is stored as given.
    pub fn new(value: &str) -> (r: Option<Self>)
        ensures
            r is Some <==> (value@.len() == 12 && forall|i: int|
                0 <= i < value@.len() ==> is_digit_char(#[trigger] value@[i]) || is_upper_char(
                    value@[i],
                )),
            match r {
                Some(u) => u@ == value@,
                None => true,
            },
    {
        let n = value.unicode_len();
        if n != 12 {
            return None;
        }
        let mut i: usize = 0;
        while i < n
            invariant
                n == value@.len(),
                i <= n,
                forall|j: int|
                    0 <= j < i ==> is_digit_char(#[trigger] value@[j]) || is_upper_char(value@[j]),
            decreases n - i,
        {
            let c = value.get_char(i);
            if !(('A' <= c && c <= 'Z') || ('0' <= c && c <= '9')) {
                return None;
            }
            i += 1;
        }
        Some(SamUei { value: String::from_str(value) })
    }

    /// The identifier string.
    pub fn as_str(&self) -> (r: &str)
        ensures
            r@ == self@,
    {
        self.value.as_str()
    }
}

/// Legal Entity Identifier per ISO 17442: 20 alphanumeric characters,
/// stored upper-cased.
#[derive(Debug, Clone, Hash)]
pub struct Lei {
    value: String,
}

impl View for Lei {
    type V = Seq<char>;

    closed spec fn view(&self) -> Seq<char> {
        self.value@
    }
}

impl Lei {
    /// Accepts a candidate if and only if it is 20 alphanumeric
    /// characters; the stored value is upper-cased.
    pub fn new(value: &str) -> (r: Option<Self>)
        ensures
            r is Some <==> (value@.len() == 20 && forall|i: int|
                0 <= i < value@.len() ==> is_alnum_char(#[trigger] value@[i])),
            match r {
                Some(l) => l@ == upper_seq(value@),
                None => true,
            },
    {
        let n = value.unicode_len();
        if n != 20 {
            return None;
        }
        let mut i: usize = 0;
        while i < n
            invariant
                n == value@.len(),
                i <= n,
                forall|j: int| 0 <= j < i ==> is_alnum_char(#[trigger] value@[j]),
            decreases n - i,
        {
            let c = value.get_char(i);
            if !(('A' <= c && c <= 'Z') || ('a' <= c && c <= 'z') || ('0' <= c && c <= '9')) {
                return None;
            }
            i += 1;
        }
        Some(Lei { value: upper_str(value) })
    }

    /// The identifier string.
    pub fn as_str(&self) -> (r: &str)
        ensures
            r@ == self@,
    {
        self.value.as_str()
    }
}

/// Sub-National Federated Entity Identifier: a SHA-256 hash held as 64
/// lowercase hexadecimal characters.
#[derive(Debug, Clone, Hash)]
pub struct Snfei {
    value: String,
}

impl View for Snfei {
    type V = Seq<char>;

    closed spec fn view(&self) -> Seq<char> {
        self.value@
    }
}

impl Snfei {
    /// Accepts an existing hash string if and only if it is 64 hexadecimal
    /// characters (either case); the stored value is lower-cased.
    pub fn from_hash(hash: &str) -> (r: Option<Self>)
        ensures
            r is Some <==> (hash@.len() == 64 && forall|i: int|
                0 <= i < hash@.len() ==> is_hex_char(#[trigger] hash@[i])),
            match r {
                Some(s) => s@ == lower_seq(hash@),
                None => true,
            },
    {
        let n = hash.unicode_len();
        if n != 64 {
            return None;
        }
        let mut i: usize = 0;
        while i < n
            invariant
                n == hash@.len(),
                i <= n,
                forall|j: int| 0 <= j < i ==> is_hex_char(#[trigger] hash@[j]),
            decreases n - i,
        {
            let c = hash.get_char(i);
            if !(('0' <= c && c <= '9') || ('a' <= c && c <= 'f') || ('A' <= c && c <= 'F')) {
                return None;
            }
            i += 1;
        }
        Some(Snfei { value: lower_str(hash) })
    }

    /// Derives an identifier directly from an already-normalized name and
    /// jurisdiction: SHA-256 of the two joined by a pipe.
    pub fn generate(normalized_name: &str, jurisdiction_iso: &str) -> (r: Self)
        ensures
            r@ == sha256_hex_of(normalized_name@ + seq!['|'] + jurisdiction_iso@),
    {
        let mut input = String::new();
        input.append(normalized_name);
        input.push('|');
        input.append(jurisdiction_iso);
        proof {
            assert(input@ =~= normalized_name@ + seq!['|'] + jurisdiction_iso@);
        }
        Snfei { value: sha256_hex(input.as_str()) }
    }

    /// The identifier string.
    pub fn as_str(&self) -> (r: &str)
        ensures
            r@ == self@,
    {
        self.value.as_str()
    }
}

/// Canadian Business Number with program account: 9 digits, 2 uppercase
/// letters, 4 digits.
#[derive(Debug, Clone, Hash)]
pub struct CanadianBn {
    value: String,
}

impl View for CanadianBn {
    type V = Seq<char>;

    closed spec fn view(&self) -> Seq<char> {
        self.value@
    }
}

/// The Canadian BN shape: `[0-9]{9}[A-Z]{2}[0-9]{4}`.
pub open spec fn is_canadian_bn(s: Seq<char>) -> bool {
    s.len() == 15 && (forall|i: int| 0 <= i < 9 ==> is_digit_char(#[trigger] s[i])) && (forall|
        i: int,
    |
        9 <= i < 11 ==> is_upper_char(#[trigger] s[i])) && (forall|i: int|
        11 <= i < 15 ==> is_digit_char(#[trigger] s[i]))
}

impl CanadianBn {
    /// Accepts a candidate if and only if it matches the BN shape; the
    /// value is stored as given.
    pub fn new(value: &str) -> (r: Option<Self>)
        ensures
            r is Some <==> is_canadian_bn(value@),
            match r {
                Some(b) => b@ == value@,
                None => true,
            },
    {
        let n = value.unicode_len();
        if n != 15 {
            return None;
        }
        let mut i: usize = 0;
        while i < 9
            invariant
                n == value@.len(),
                n == 15,
                i <= 9,
                forall|j: int| 0 <= j < i ==> is_digit_char(#[trigger] value@[j]),
            decreases 9 - i,
        {
            let c = value.get_char(i);
            if !('0' <= c && c <= '9') {
                return None;
            }
            i += 1;
        }
        let mut k: usize = 9;
        while k < 11
            invariant
                n == value@.len(),
                n == 15,
                9 <= k <= 11,
                forall|j: int| 9 <= j < k ==> is_upper_char(#[trigger] value@[j]),
            decreases 11 - k,
        {
            let c = value.get_char(k);
            if !('A' <= c && c <= 'Z') {
                return None;
            }
            k += 1;
        }
        let mut m: usize = 11;
        while m < 15
            invariant
                n == value@.len(),
                n == 15,
                11 <= m <= 15,
                forall|j: int| 11 <= j < m ==> is_digit_char(#[trigger] value@[j]),
            decreases 15 - m,
        {
            let c = value.get_char(m);
            if !('0' <= c && c <= '9') {
                return None;
            }
            m += 1;
        }
        Some(CanadianBn { value: String::from_str(value) })
    }

    /// The identifier string.
    pub fn as_str(&self) -> (r: &str)
        ensures
            r@ == self@,
    {
        self.value.as_str()
    }
}

/// An additional identifier scheme: a scheme URI and a value in it.
#[derive(Debug)]
pub struct AdditionalScheme {
    /// URI naming the scheme.
    pub scheme_uri: String,
    /// The identifier value within the scheme.
    pub value: String,
}

impl Clone for AdditionalScheme {
    /// An exact copy of the pair.
    fn clone(&self) -> (r: Self)
        ensures
            r == *self,
    {
        AdditionalScheme { scheme_uri: self.scheme_uri.clone(), value: self.value.clone() }
    }
}

/// Stable insertion of a scheme into a list sorted by scheme URI: the new
/// item goes after every item whose URI is not greater than its own.
pub open spec fn insert_by_uri(s: Seq<AdditionalScheme>, x: AdditionalScheme) -> Seq<
    AdditionalScheme,
>
    decreases s.len(),
{
    if s.len() == 0 {
        seq![x]
    } else if lex_lt(x.scheme_uri@, s[0].scheme_uri@) {
        seq![x] + s
    } else {
        seq![s[0]] + insert_by_uri(s.skip(1), x)
    }
}

/// The schemes sorted by scheme URI, stably: insertion sort from the left.
pub open spec fn sort_by_uri(s: Seq<AdditionalScheme>) -> Seq<AdditionalScheme>
    decreases s.len(),
{
    if s.len() == 0 {
        Seq::empty()
    } else {
        insert_by_uri(sort_by_uri(s.drop_last()), s.last())
    }
}

/// Inserting at the first position whose URI is greater yields the stable
/// insertion.
proof fn lemma_insert_by_uri_at(s: Seq<AdditionalScheme>, x: AdditionalScheme, j: int)
    requires
        0 <= j <= s.len(),
        forall|k: int| 0 <= k < j ==> !lex_lt(x.scheme_uri@, (#[trigger] s[k]).scheme_uri@),
        j < s.len() ==> lex_lt(x.scheme_uri@, s[j].scheme_uri@),
    ensures
        insert_by_uri(s, x) == s.subrange(0, j) + seq![x] + s.subrange(j, s.len() as int),
    decreases j,
{
    if j == 0 {
        if s.len() == 0 {
            assert(insert_by_uri(s, x) =~= s.subrange(0, 0) + seq![x] + s.subrange(
                0,
                s.len() as int,
            ));
        } else {
            assert(s.subrange(0, 0) + seq![x] + s.subrange(0, s.len() as int) =~= seq![x] + s);
        }
    } else {
        lemma_insert_by_uri_at(s.skip(1), x, j - 1);
        assert(s.skip(1).subrange(0, j - 1) =~= s.subrange(1, j));
        assert(s.skip(1).subrange(j - 1, s.skip(1).len() as int) =~= s.subrange(
            j,
            s.len() as int,
        ));
        assert(seq![s[0]] + (s.subrange(1, j) + seq![x] + s.subrange(j, s.len() as int)) =~= s
            .subrange(0, j) + seq![x] + s.subrange(j, s.len() as int));
    }
}

/// The first position in a URI-sorted list whose URI is greater than the
/// candidate's: the stable insertion point.
fn find_insert_pos(out: &Vec<AdditionalScheme>, x: &AdditionalScheme) -> (j: usize)
    ensures
        j <= out@.len(),
        forall|k: int| 0 <= k < j ==> !lex_lt(x.scheme_uri@, (#[trigger] out@[k]).scheme_uri@),
        j < out@.len() ==> lex_lt(x.scheme_uri@, out@[j as int].scheme_uri@),
{
    let m = out.len();
    let mut j: usize = 0;
    while j < m
        invariant
            m == out@.len(),
            j <= m,
            forall|k: int| 0 <= k < j ==> !lex_lt(x.scheme_uri@, (#[trigger] out@[k]).scheme_uri@),
        decreases m - j,
    {
        if str_lex_lt(x.scheme_uri.as_str(), out[j].scheme_uri.as_str()) {
            return j;
        }
        j += 1;
    }
    j
}

/// Sorts schemes by scheme URI, stably.
fn sort_schemes(schemes: &Vec<AdditionalScheme>) -> (r: Vec<AdditionalScheme>)
    ensures
        r@ == sort_by_uri(schemes@),
{
    let n = schemes.len();
    let mut out: Vec<AdditionalScheme> = Vec::new();
    let mut i: usize = 0;
    proof {
        assert(schemes@.take(0) =~= Seq::<AdditionalScheme>::empty());
        assert(out@ =~= sort_by_uri(schemes@.take(0)));
    }
    while i < n
        invariant
            n == schemes@.len(),
            i <= n,
            out@ == sort_by_uri(schemes@.take(i as int)),
        decreases n - i,
    {
        let x = schemes[i].clone();
        let j = find_insert_pos(&out, &x);
        let ghost pre = out@;
        out.insert(j, x);
        proof {
            lemma_insert_by_uri_at(pre, schemes@[i as int], j as int);
            assert(out@ =~= insert_by_uri(pre, schemes@[i as int]));
            assert(schemes@.take(i as int + 1).drop_last() =~= schemes@.take(i as int));
            assert(schemes@.take(i as int + 1).last() == schemes@[i as int]);
        }
        i += 1;
    }
    proof {
        assert(schemes@.take(n as int) =~= schemes@);
    }
    out
}

/// The compact JSON encoding of one scheme: its two fields as a JSON
/// object, keys in declaration order.
pub open spec fn scheme_json(x: AdditionalScheme) -> Seq<char> {
    "{\"schemeUri\":\""@ + escape_json(x.scheme_uri@) + "\",\"value\":\""@ + escape_json(x.value@)
        + "\"}"@
}

/// The compact JSON encoding of a scheme list: a JSON array of the scheme
/// objects, in list order.
pub open spec fn schemes_json(list: Seq<AdditionalScheme>) -> Seq<char> {
    "["@ + join_comma(list.map_values(|x: AdditionalScheme| scheme_json(x))) + "]"@
}

/// Encodes one scheme as a compact JSON object.
fn scheme_json_str(x: &AdditionalScheme) -> (r: String)
    ensures
        r@ == scheme_json(*x),
{
    let mut out = String::new();
    out.append("{\"schemeUri\":\"");
    let uri = crate::canonical::escape_json_str(x.scheme_uri.as_str());
    out.append(uri.as_str());
    out.append("\",\"value\":\"");
    let value = crate::canonical::escape_json_str(x.value.as_str());
    out.append(value.as_str());
    out.append("\"}");
    proof {
        assert(out@ =~= scheme_json(*x));
    }
    out
}

/// Encodes a scheme list as a compact JSON array.
fn schemes_json_str(list: &Vec<AdditionalScheme>) -> (r: String)
    ensures
        r@ == schemes_json(list@),
{
    let n = list.len();
    let mut parts: Vec<String> = Vec::new();
    let mut i: usize = 0;
    while i < n
        invariant
            n == list@.len(),
            i <= n,
            parts@.len() == i,
            forall|k: int|
                0 <= k < i ==> (#[trigger] parts@[k])@ == scheme_json(list@[k]),
        decreases n - i,
    {
        parts.push(scheme_json_str(&list[i]));
        i += 1;
    }
    let joined = join_comma_strs(&parts);
    let mut out = String::new();
    out.append("[");
    out.append(joined.as_str());
    out.append("]");
    proof {
        assert(parts.deep_view() =~= list@.map_values(|x: AdditionalScheme| scheme_json(x)));
        assert(out@ =~= schemes_json(list@));
    }
    out
}

/// The collection of all known identifiers for an entity.
#[derive(Debug, Clone)]
pub struct EntityIdentifiers {
    /// SAM.gov UEI, when known.
    pub sam_uei: Option<SamUei>,
    /// LEI, when known.
    pub lei: Option<Lei>,
    /// SNFEI, when computed.
    pub snfei: Option<Snfei>,
    /// Canadian BN, when known.
    pub canadian_bn: Option<CanadianBn>,
    /// Any further scheme/value pairs.
    pub additional_schemes: Option<Vec<AdditionalScheme>>,
}

impl Default for EntityIdentifiers {
    /// An empty collection: no identifier of any kind.
    fn default() -> (r: Self)
        ensures
            r.sam_uei is None,
            r.lei is None,
            r.snfei is None,
            r.canadian_bn is None,
            r.additional_schemes is None,
    {
        EntityIdentifiers {
            sam_uei: None,
            lei: None,
            snfei: None,
            canadian_bn: None,
            additional_schemes: None,
        }
    }
}

impl EntityIdentifiers {
    /// An empty collection.
    pub fn new() -> (r: Self)
        ensures
            r.sam_uei is None,
            r.lei is None,
            r.snfei is None,
            r.canadian_bn is None,
            r.additional_schemes is None,
    {
        Self::default()
    }

    /// The same collection with the SAM UEI set.
    pub fn with_sam_uei(self, uei: SamUei) -> (r: Self)
        ensures
            r.sam_uei == Some(uei),
            r.lei == self.lei,
            r.snfei == self.snfei,
            r.canadian_bn == self.canadian_bn,
            r.additional_schemes == self.additional_schemes,
    {
        EntityIdentifiers { sam_uei: Some(uei), ..self }
    }

    /// The same collection with the LEI set.
    pub fn with_lei(self, lei: Lei) -> (r: Self)
        ensures
            r.lei == Some(lei),
            r.sam_uei == self.sam_uei,
            r.snfei == self.snfei,
            r.canadian_bn == self.canadian_bn,
            r.additional_schemes == self.additional_schemes,
    {
        EntityIdentifiers { lei: Some(lei), ..self }
    }

    /// The same collection with the SNFEI set.
    pub fn with_snfei(self, snfei: Snfei) -> (r: Self)
        ensures
            r.snfei == Some(snfei),
            r.sam_uei == self.sam_uei,
            r.lei == self.lei,
            r.canadian_bn == self.canadian_bn,
            r.additional_schemes == self.additional_schemes,
    {
        EntityIdentifiers { snfei: Some(snfei), ..self }
    }

    /// Whether any identifier at all is present.
    pub fn has_any(&self) -> (r: bool)
        ensures
            r == (self.sam_uei is Some || self.lei is Some || self.snfei is Some
                || self.canadian_bn is Some || (match self.additional_schemes {
                Some(v) => v@.len() > 0,
                None => false,
            })),
    {
        self.sam_uei.is_some() || self.lei.is_some() || self.snfei.is_some()
            || self.canadian_bn.is_some() || (match &self.additional_schemes {
            Some(v) => v.len() > 0,
            None => false,
        })
    }

    /// Resolves the one primary identifier URI, by fixed precedence
    /// LEI > SAM UEI > SNFEI > Canadian BN; absent when no registry
    /// identifier is held (additional schemes never qualify).
    pub fn primary_identifier(&self) -> (r: Option<String>)
        ensures
            r is Some <==> (self.lei is Some || self.sam_uei is Some || self.snfei is Some
                || self.canadian_bn is Some),
            match self.lei {
                Some(l) => r matches Some(s) && s@ == "cep-entity:lei:"@ + l@,
                None => true,
            },
            self.lei is None ==> match self.sam_uei {
                Some(u) => r matches Some(s) && s@ == "cep-entity:sam-uei:"@ + u@,
                None => true,
            },
            self.lei is None && self.sam_uei is None ==> match self.snfei {
                Some(sn) => r matches Some(s) && s@ == "cep-entity:snfei:"@ + sn@,
                None => true,
            },
            self.lei is None && self.sam_uei is None && self.snfei is None ==> match self
                .canadian_bn {
                Some(b) => r matches Some(s) && s@ == "cep-entity:canadian-bn:"@ + b@,
                None => true,
            },
    {
        if let Some(lei) = &self.lei {
            let mut s = String::new();
            s.append("cep-entity:lei:");
            s.append(lei.as_str());
            proof {
                assert(s@ =~= "cep-entity:lei:"@ + self.lei.unwrap()@);
            }
            return Some(s);
        }
        if let Some(uei) = &self.sam_uei {
            let mut s = String::new();
            s.append("cep-entity:sam-uei:");
            s.append(uei.as_str());
            proof {
                assert(s@ =~= "cep-entity:sam-uei:"@ + self.sam_uei.unwrap()@);
            }
            return Some(s);
        }
        if let Some(snfei) = &self.snfei {
            let mut s = String::new();
            s.append("cep-entity:snfei:");
            s.append(snfei.as_str());
            proof {
                assert(s@ =~= "cep-entity:snfei:"@ + self.snfei.unwrap()@);
            }
            return Some(s);
        }
        if let Some(bn) = &self.canadian_bn {
            let mut s = String::new();
            s.append("cep-entity:canadian-bn:");
            s.append(bn.as_str());
            proof {
                assert(s@ =~= "cep-entity:canadian-bn:"@ + self.canadian_bn.unwrap()@);
            }
            return Some(s);
        }
        None
    }
}

/// The five field keys of the entity-identifier encoding stand in
/// ascending lexicographic order.
proof fn lemma_entity_key_order()
    ensures
        lex_lt("additionalSchemes"@, "canadianBn"@),
        lex_lt("canadianBn"@, "lei"@),
        lex_lt("lei"@, "samUei"@),
        lex_lt("samUei"@, "snfei"@),
        lex_lt("additionalSchemes"@, "lei"@),
        lex_lt("additionalSchemes"@, "samUei"@),
        lex_lt("additionalSchemes"@, "snfei"@),
        lex_lt("canadianBn"@, "samUei"@),
        lex_lt("canadianBn"@, "snfei"@),
        lex_lt("lei"@, "snfei"@),
{
    reveal_strlit("additionalSchemes");
    reveal_strlit("canadianBn");
    reveal_strlit("lei");
    reveal_strlit("samUei");
    reveal_strlit("snfei");
    reveal_with_fuel(lex_lt, 4);
    assert(lex_lt("additionalSchemes"@, "canadianBn"@));
    assert(lex_lt("canadianBn"@, "lei"@));
    assert(lex_lt("lei"@, "samUei"@));
    assert(lex_lt("samUei"@, "snfei"@));
    lemma_lex_trans("additionalSchemes"@, "canadianBn"@, "lei"@);
    lemma_lex_trans("additionalSchemes"@, "lei"@, "samUei"@);
    lemma_lex_trans("additionalSchemes"@, "samUei"@, "snfei"@);
    lemma_lex_trans("canadianBn"@, "lei"@, "samUei"@);
    lemma_lex_trans("canadianBn"@, "samUei"@, "snfei"@);
    lemma_lex_trans("lei"@, "samUei"@, "snfei"@);
}

impl Canonicalize for EntityIdentifiers {
    /// The canonical field mapping: `additionalSchemes` (sorted, as JSON)
    /// when present and non-empty, then each held identifier under its
    /// camelCase key, in ascending key order.
    open spec fn canonical_model(&self) -> Seq<(Seq<char>, Seq<char>)> {
        let m0 = Seq::<(Seq<char>, Seq<char>)>::empty();
        let m1 = match self.additional_schemes {
            Some(v) => if v@.len() > 0 {
                m0.push(("additionalSchemes"@, schemes_json(sort_by_uri(v@))))
            } else {
                m0
            },
            None => m0,
        };
        let m2 = match self.canadian_bn {
            Some(b) => m1.push(("canadianBn"@, b@)),
            None => m1,
        };
        let m3 = match self.lei {
            Some(l) => m2.push(("lei"@, l@)),
            None => m2,
        };
        let m4 = match self.sam_uei {
            Some(u) => m3.push(("samUei"@, u@)),
            None => m3,
        };
        match self.snfei {
            Some(s) => m4.push(("snfei"@, s@)),
            None => m4,
        }
    }

    fn canonical_fields(&self) -> (r: FieldMap) {
        proof {
            lemma_entity_key_order();
        }
        let mut map = FieldMap::new();
        match &self.additional_schemes {
            Some(schemes) => {
                if schemes.len() > 0 {
                    let sorted = sort_schemes(schemes);
                    let json = schemes_json_str(&sorted);
                    insert_required(&mut map, "additionalSchemes", json.as_str());
                }
            },
            None => {},
        }
        insert_if_present(
            &mut map,
            "canadianBn",
            match &self.canadian_bn {
                Some(b) => Some(b.as_str()),
                None => None,
            },
        );
        insert_if_present(
            &mut map,
            "lei",
            match &self.lei {
                Some(l) => Some(l.as_str()),
                None => None,
            },
        );
        insert_if_present(
            &mut map,
            "samUei",
            match &self.sam_uei {
                Some(u) => Some(u.as_str()),
                None => None,
            },
        );
        insert_if_present(
            &mut map,
            "snfei",
            match &self.snfei {
                Some(s) => Some(s.as_str()),
                None => None,
            },
        );
        map
    }

    fn to_canonical_string(&self) -> (r: String) {
        let map = self.canonical_fields();
        canonical_string_of_map(&map)
    }

    fn calculate_hash(&self) -> (r: String) {
        let canonical = self.to_canonical_string();
        sha256_hex(canonical.as_str())
    }
}

} // verus!
