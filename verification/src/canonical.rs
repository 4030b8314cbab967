//! The canonicalization contract.
//!
//! Every record type can produce an ordered mapping from field name to
//! canonical-encoded value ([`FieldMap`]), serialize it as a deterministic
//! canonical string of `"key":"value"` pairs joined by commas, and hash
//! that string with SHA-256.  The mapping is ordered by byte-lexicographic
//! key order, and absent optional fields are omitted entirely, so identical
//! logical content always yields an identical string.

use vstd::prelude::*;

use crate::hash::{hex_digit, sha256_hex_of};
use crate::text::{lemma_lex_trans, lex_lt, str_eq};

verus! {

/// JSON string escaping of a single character, as a compact JSON encoder
/// writes it: quote and backslash get a backslash escape; the control
/// characters with short escapes use them; any other control character
/// becomes a `\u00..` sequence with lowercase hex digits; every other
/// character is kept as it is.
pub open spec fn escape_char(c: char) -> Seq<char> {
    if c == '"' {
        seq!['\\', '"']
    } else if c == '\\' {
        seq!['\\', '\\']
    } else if c == '\u{8}' {
        seq!['\\', 'b']
    } else if c == '\u{c}' {
        seq!['\\', 'f']
    } else if c == '\n' {
        seq!['\\', 'n']
    } else if c == '\r' {
        seq!['\\', 'r']
    } else if c == '\t' {
        seq!['\\', 't']
    } else if (c as u32) < 32 {
        seq!['\\', 'u', '0', '0', hex_digit((c as u32 / 16) as u8), hex_digit((c as u32 % 16) as u8)]
    } else {
        seq![c]
    }
}

/// JSON string escaping of a whole character sequence.
pub open spec fn escape_json(s: Seq<char>) -> Seq<char>
    decreases s.len(),
{
    if s.len() == 0 {
        Seq::empty()
    } else {
        escape_char(s[0]) + escape_json(s.skip(1))
    }
}

/// Escapes a string for embedding between the quotes of a JSON string.
pub fn escape_json_str(s: &str) -> (r: String)
    ensures
        r@ == escape_json(s@),
{
    let n = s.unicode_len();
    let mut out = String::new();
    let mut i: usize = 0;
    proof {
        assert(s@.skip(0) =~= s@);
    }
    while i < n
        invariant
            n == s@.len(),
            i <= n,
            escape_json(s@) == out@ + escape_json(s@.skip(i as int)),
        decreases n - i,
    {
        proof {
            assert(s@.skip(i as int).skip(1) =~= s@.skip(i as int + 1));
            assert(s@.skip(i as int)[0] == s@[i as int]);
        }
        let c = s.get_char(i);
        let ghost pre = out@;
        if c == '"' {
            out.push('\\');
            out.push('"');
        } else if c == '\\' {
            out.push('\\');
            out.push('\\');
        } else if c == '\u{8}' {
            out.push('\\');
            out.push('b');
        } else if c == '\u{c}' {
            out.push('\\');
            out.push('f');
        } else if c == '\n' {
            out.push('\\');
            out.push('n');
        } else if c == '\r' {
            out.push('\\');
            out.push('r');
        } else if c == '\t' {
            out.push('\\');
            out.push('t');
        } else if (c as u32) < 32 {
            let hi: u8 = (c as u32 / 16) as u8;
            let lo: u8 = (c as u32 % 16) as u8;
            out.push('\\');
            out.push('u');
            out.push('0');
            out.push('0');
            out.push(if hi < 10 {
                (hi + 48) as char
            } else {
                (hi + 87) as char
            });
            out.push(if lo < 10 {
                (lo + 48) as char
            } else {
                (lo + 87) as char
            });
        } else {
            out.push(c);
        }
        proof {
            assert(out@ =~= pre + escape_char(s@[i as int]));
        }
        i += 1;
    }
    proof {
        assert(s@.skip(n as int) =~= Seq::<char>::empty());
        assert(escape_json(s@) =~= out@);
    }
    out
}

/// An ordered mapping from field name to canonical-encoded value.  The
/// entries are kept in strictly ascending byte-lexicographic key order, so
/// serializing them in sequence order is deterministic by construction.
pub struct FieldMap {
    entries: Vec<(String, String)>,
}

impl View for FieldMap {
    type V = Seq<(Seq<char>, Seq<char>)>;

    closed spec fn view(&self) -> Seq<(Seq<char>, Seq<char>)> {
        self.entries@.map_values(|e: (String, String)| (e.0@, e.1@))
    }
}

impl FieldMap {
    /// The keys are in strictly ascending lexicographic order.
    pub open spec fn wf(self) -> bool {
        forall|i: int, j: int|
            0 <= i < j < self@.len() ==> lex_lt(#[trigger] self@[i].0, #[trigger] self@[j].0)
    }

    /// An empty mapping.
    pub fn new() -> (r: Self)
        ensures
            r@ == Seq::<(Seq<char>, Seq<char>)>::empty(),
            r.wf(),
    {
        let r = FieldMap { entries: Vec::new() };
        proof {
            assert(r@ =~= Seq::<(Seq<char>, Seq<char>)>::empty());
        }
        r
    }

    /// How many fields are present.
    pub fn len(&self) -> (r: usize)
        ensures
            r == self@.len(),
    {
        self.entries.len()
    }

    /// The keys, in mapping order.
    pub fn keys(&self) -> (r: Vec<String>)
        ensures
            r@.len() == self@.len(),
            forall|i: int| 0 <= i < r@.len() ==> (#[trigger] r@[i])@ == self@[i].0,
    {
        let n = self.entries.len();
        let mut r: Vec<String> = Vec::new();
        let mut i: usize = 0;
        while i < n
            invariant
                n == self@.len(),
                n == self.entries@.len(),
                i <= n,
                r@.len() == i,
                forall|j: int| 0 <= j < i ==> (#[trigger] r@[j])@ == self@[j].0,
            decreases n - i,
        {
            r.push(self.entries[i].0.clone());
            i += 1;
        }
        r
    }

    /// Whether a field of the given name is present.
    pub fn contains_key(&self, key: &str) -> (r: bool)
        ensures
            r == exists|i: int| 0 <= i < self@.len() && (#[trigger] self@[i]).0 == key@,
    {
        let n = self.entries.len();
        let mut i: usize = 0;
        while i < n
            invariant
                n == self@.len(),
                n == self.entries@.len(),
                i <= n,
                forall|j: int| 0 <= j < i ==> (#[trigger] self@[j]).0 != key@,
            decreases n - i,
        {
            if str_eq(self.entries[i].0.as_str(), key) {
                proof {
                    assert((self@[i as int]).0 == key@);
                }
                return true;
            }
            i += 1;
        }
        false
    }
}

/// Appends a required field to the mapping.  Fields are inserted in
/// ascending key order, which keeps the mapping sorted.
pub fn insert_required(map: &mut FieldMap, key: &str, value: &str)
    requires
        old(map).wf(),
        old(map)@.len() > 0 ==> lex_lt(old(map)@.last().0, key@),
    ensures
        final(map)@ == old(map)@.push((key@, value@)),
        final(map).wf(),
{
    map.entries.push((String::from_str(key), String::from_str(value)));
    proof {
        assert(map@ =~= old(map)@.push((key@, value@)));
        assert forall|i: int, j: int| 0 <= i < j < map@.len() implies lex_lt(
            #[trigger] map@[i].0,
            #[trigger] map@[j].0,
        ) by {
            if j == map@.len() - 1 && i < old(map)@.len() - 1 {
                lemma_lex_trans(map@[i].0, old(map)@.last().0, key@);
            }
        }
    }
}

/// Appends an optional field to the mapping when the value is present;
/// an absent value leaves the mapping untouched.
pub fn insert_if_present(map: &mut FieldMap, key: &str, value: Option<&str>)
    requires
        old(map).wf(),
        value is Some && old(map)@.len() > 0 ==> lex_lt(old(map)@.last().0, key@),
    ensures
        final(map)@ == match value {
            Some(v) => old(map)@.push((key@, v@)),
            None => old(map)@,
        },
        final(map).wf(),
{
    match value {
        Some(v) => insert_required(map, key, v),
        None => (),
    }
}

/// The canonical encoding of one field: the key in quotes, a colon, and
/// the JSON-escaped value in quotes.
pub open spec fn entry_string(k: Seq<char>, v: Seq<char>) -> Seq<char> {
    seq!['"'] + k + seq!['"', ':', '"'] + escape_json(v) + seq!['"']
}

/// The canonical serialization of the entries after the first: each is
/// preceded by a comma.
pub open spec fn entries_string_rest(m: Seq<(Seq<char>, Seq<char>)>) -> Seq<char>
    decreases m.len(),
{
    if m.len() == 0 {
        Seq::empty()
    } else {
        seq![','] + entry_string(m[0].0, m[0].1) + entries_string_rest(m.skip(1))
    }
}

/// The canonical serialization of an ordered field mapping: the
/// `"key":"value"` encodings of the entries, joined by commas.
pub open spec fn entries_string(m: Seq<(Seq<char>, Seq<char>)>) -> Seq<char> {
    if m.len() == 0 {
        Seq::empty()
    } else {
        entry_string(m[0].0, m[0].1) + entries_string_rest(m.skip(1))
    }
}

/// Appends the canonical encoding of one field to the output.
fn append_entry(out: &mut String, key: &str, value: &str)
    ensures
        final(out)@ == old(out)@ + entry_string(key@, value@),
{
    let ghost pre = out@;
    out.push('"');
    out.append(key);
    out.push('"');
    out.push(':');
    out.push('"');
    let escaped = escape_json_str(value);
    out.append(escaped.as_str());
    out.push('"');
    proof {
        assert(out@ =~= pre + entry_string(key@, value@));
    }
}

/// Serializes an ordered field mapping as the canonical string.
pub fn canonical_string_of_map(map: &FieldMap) -> (r: String)
    ensures
        r@ == entries_string(map@),
{
    let n = map.entries.len();
    let mut out = String::new();
    if n == 0 {
        return out;
    }
    append_entry(&mut out, map.entries[0].0.as_str(), map.entries[0].1.as_str());
    let mut i: usize = 1;
    proof {
        assert(map@[0] == (map.entries@[0].0@, map.entries@[0].1@));
        assert(entries_string(map@) == entry_string(map@[0].0, map@[0].1) + entries_string_rest(
            map@.skip(1),
        ));
    }
    while i < n
        invariant
            n == map@.len(),
            n == map.entries@.len(),
            1 <= i <= n,
            map@ == map.entries@.map_values(|e: (String, String)| (e.0@, e.1@)),
            entries_string(map@) == out@ + entries_string_rest(map@.skip(i as int)),
        decreases n - i,
    {
        proof {
            assert(map@.skip(i as int).skip(1) =~= map@.skip(i as int + 1));
            assert(map@.skip(i as int)[0] == map@[i as int]);
        }
        let ghost pre = out@;
        out.push(',');
        append_entry(&mut out, map.entries[i].0.as_str(), map.entries[i].1.as_str());
        proof {
            assert(out@ =~= pre + (seq![','] + entry_string(map@[i as int].0, map@[i as int].1)));
        }
        i += 1;
    }
    proof {
        assert(map@.skip(n as int) =~= Seq::<(Seq<char>, Seq<char>)>::empty());
        assert(entries_string(map@) =~= out@);
    }
    out
}

/// Determinism of canonicalization: any canonical strings and hashes that
/// satisfy the contract for the same field mapping are equal.  The
/// contracts pin both as functions of the mapping alone, so two
/// invocations on identical logical content produce identical output,
/// independent of call order or platform.
pub proof fn lemma_canonicalization_deterministic(
    m: Seq<(Seq<char>, Seq<char>)>,
    s1: Seq<char>,
    s2: Seq<char>,
    h1: Seq<char>,
    h2: Seq<char>,
)
    requires
        s1 == entries_string(m),
        s2 == entries_string(m),
        h1 == sha256_hex_of(s1),
        h2 == sha256_hex_of(s2),
    ensures
        s1 == s2,
        h1 == h2,
{
}

/// The capability every record type implements: produce an ordered field
/// mapping, serialize it deterministically, and hash the serialization.
pub trait Canonicalize: Sized {
    /// The record's canonical field mapping as a mathematical value: the
    /// (key, value) pairs in ascending key order.
    spec fn canonical_model(&self) -> Seq<(Seq<char>, Seq<char>)>;

    /// The ordered mapping from field name to canonical-encoded value.
    fn canonical_fields(&self) -> (r: FieldMap)
        ensures
            r@ == self.canonical_model(),
            r.wf(),
    ;

    /// The canonical string: `"key":"value"` pairs joined by commas, keys
    /// in byte-lexicographic order, values JSON-escaped.
    fn to_canonical_string(&self) -> (r: String)
        ensures
            r@ == entries_string(self.canonical_model()),
    ;

    /// The SHA-256 digest of the canonical string, hex-encoded lowercase.
    fn calculate_hash(&self) -> (r: String)
        ensures
            r@ == sha256_hex_of(entries_string(self.canonical_model())),
            r@.len() == 64,
    ;
}

} // verus!
