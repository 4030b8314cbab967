//! Schema version information.
//!
//! The schema version is a semantic version string; the accessors parse it
//! by splitting on `.`, with unparsable segments defaulting to 0 (the
//! major segment defaults to 1).

use vstd::prelude::*;

use crate::identifiers::is_digit_char;

verus! {

/// Current schema version (major.minor.patch).
pub const SCHEMA_VERSION: &'static str = "1.0.0";

/// The numeric value of a sequence of decimal digit characters.
pub open spec fn dec_digits_value(s: Seq<char>) -> int
    decreases s.len(),
{
    if s.len() == 0 {
        0
    } else {
        dec_digits_value(s.drop_last()) * 10 + (s.last() as int - 48)
    }
}

/// Every character is a decimal digit.
pub open spec fn all_digits(s: Seq<char>) -> bool {
    forall|i: int| 0 <= i < s.len() ==> is_digit_char(#[trigger] s[i])
}

/// The first position of `c` in `s` at or after `from`, or the length of
/// `s` when `c` does not occur there.
fn find_char(s: &str, c: char, from: usize) -> (r: usize)
    requires
        from <= s@.len(),
    ensures
        from <= r <= s@.len(),
        forall|j: int| from <= j < r ==> s@[j] != c,
        r < s@.len() ==> s@[r as int] == c,
{
    let n = s.unicode_len();
    let mut i = from;
    while i < n
        invariant
            n == s@.len(),
            from <= i <= n,
            forall|j: int| from <= j < i ==> s@[j] != c,
        decreases n - i,
    {
        if s.get_char(i) == c {
            return i;
        }
        i += 1;
    }
    i
}

/// Parses the digits of `s` between `from` and `to` as a decimal number.
/// Succeeds exactly on a non-empty run of at most nine decimal digits
/// (which always fits in a `u32`); anything else is unparsable.
fn parse_segment(s: &str, from: usize, to: usize) -> (r: Option<u32>)
    requires
        from <= to <= s@.len(),
    ensures
        r is Some <==> (from < to && to - from <= 9 && all_digits(s@.subrange(from as int, to as int))),
        match r {
            Some(v) => v == dec_digits_value(s@.subrange(from as int, to as int)),
            None => true,
        },
{
    if from == to || to - from > 9 {
        return None;
    }
    let mut acc: u32 = 0;
    let mut i = from;
    proof {
        assert(s@.subrange(from as int, from as int) =~= Seq::<char>::empty());
    }
    while i < to
        invariant
            from <= i <= to <= s@.len(),
            to - from <= 9,
            all_digits(s@.subrange(from as int, i as int)),
            acc == dec_digits_value(s@.subrange(from as int, i as int)),
            acc < pow10((i - from) as nat),
        decreases to - i,
    {
        let c = s.get_char(i);
        if !('0' <= c && c <= '9') {
            proof {
                assert(s@.subrange(from as int, to as int)[i - from] == s@[i as int]);
            }
            return None;
        }
        proof {
            lemma_pow10_mono((i - from) as nat, 8);
            reveal_with_fuel(pow10, 10);
            assert(pow10(8) == 100000000);
        }
        acc = acc * 10 + (c as u32 - 48);
        i += 1;
        proof {
            assert(s@.subrange(from as int, i as int).drop_last() =~= s@.subrange(
                from as int,
                i as int - 1,
            ));
            assert(s@.subrange(from as int, i as int).last() == s@[i - 1]);
        }
    }
    proof {
        assert(s@.subrange(from as int, to as int) =~= s@.subrange(from as int, i as int));
    }
    Some(acc)
}

/// Ten to the `n`-th power.
pub open spec fn pow10(n: nat) -> int
    decreases n,
{
    if n == 0 {
        1
    } else {
        10 * pow10((n - 1) as nat)
    }
}

proof fn lemma_pow10_mono(a: nat, b: nat)
    requires
        a <= b,
    ensures
        pow10(a) <= pow10(b),
    decreases b,
{
    if a < b {
        lemma_pow10_mono(a, (b - 1) as nat);
        assert(pow10(b) == 10 * pow10((b - 1) as nat));
        assert(pow10(a) >= 1) by {
            lemma_pow10_pos(a);
        }
    }
}

proof fn lemma_pow10_pos(n: nat)
    ensures
        pow10(n) >= 1,
    decreases n,
{
    if n > 0 {
        lemma_pow10_pos((n - 1) as nat);
    }
}

/// The `idx`-th dot-separated segment of the schema version, parsed, or
/// the given default when absent or unparsable.
fn version_segment(s: &str, idx: usize, default: u32) -> (r: u32)
    requires
        idx <= 2,
    ensures
        spec_version_segment(s@, idx as int, default as int) == r as int,
{
    let n = s.unicode_len();
    let mut start: usize = 0;
    let mut k: usize = 0;
    while k < idx
        invariant
            start <= s@.len(),
            n == s@.len(),
            k <= idx,
            start as int == spec_segment_start(s@, k as int),
        decreases idx - k,
    {
        let dot = find_char(s, '.', start);
        proof {
            lemma_spec_find(s@, '.', start as int, dot as int);
        }
        if dot == n {
            start = n;
        } else {
            start = dot + 1;
        }
        proof {
            lemma_segment_start_step(s@, k as int, start as int, dot as int);
        }
        k += 1;
    }
    let stop = find_char(s, '.', start);
    proof {
        lemma_spec_find(s@, '.', start as int, stop as int);
    }
    match parse_segment(s, start, stop) {
        Some(v) => v,
        None => default,
    }
}

/// The start of the `k`-th dot-separated segment: just past the `k`-th
/// dot, or the end of the string when there are fewer dots.
pub open spec fn spec_segment_start(s: Seq<char>, k: int) -> int
    decreases k,
{
    if k <= 0 {
        0
    } else {
        let prev = spec_segment_start(s, k - 1);
        let dot = spec_find(s, '.', prev);
        if dot == s.len() {
            s.len() as int
        } else {
            dot + 1
        }
    }
}

/// The first position of `c` at or after `from`, or the length.
pub open spec fn spec_find(s: Seq<char>, c: char, from: int) -> int
    decreases s.len() - from,
{
    if from < 0 || from >= s.len() {
        s.len() as int
    } else if s[from] == c {
        from
    } else {
        spec_find(s, c, from + 1)
    }
}

proof fn lemma_spec_find(s: Seq<char>, c: char, from: int, r: int)
    requires
        0 <= from <= r <= s.len(),
        forall|j: int| from <= j < r ==> s[j] != c,
        r < s.len() ==> s[r] == c,
    ensures
        spec_find(s, c, from) == r,
    decreases r - from,
{
    if from < r {
        lemma_spec_find(s, c, from + 1, r);
    }
}

proof fn lemma_segment_start_step(s: Seq<char>, k: int, start: int, dot: int)
    requires
        k >= 0,
        spec_segment_start(s, k) <= s.len(),
        dot == spec_find(s, '.', spec_segment_start(s, k)),
        start == if dot == s.len() {
            s.len() as int
        } else {
            dot + 1
        },
    ensures
        start == spec_segment_start(s, k + 1),
{
}

/// The parsed value of the `idx`-th segment, or the default.
pub open spec fn spec_version_segment(s: Seq<char>, idx: int, default: int) -> int {
    let start = spec_segment_start(s, idx);
    let stop = spec_find(s, '.', start);
    let seg = s.subrange(start, stop);
    if seg.len() > 0 && seg.len() <= 9 && all_digits(seg) {
        dec_digits_value(seg)
    } else {
        default
    }
}

/// The major version number of the schema version: 1.
pub fn major_version() -> (r: u32)
    ensures
        r == 1,
{
    let r = version_segment(SCHEMA_VERSION, 0, 1);
    proof {
        lemma_schema_version_values();
    }
    r
}

/// The minor version number of the schema version: 0.
pub fn minor_version() -> (r: u32)
    ensures
        r == 0,
{
    let r = version_segment(SCHEMA_VERSION, 1, 0);
    proof {
        lemma_schema_version_values();
    }
    r
}

/// The patch version number of the schema version: 0.
pub fn patch_version() -> (r: u32)
    ensures
        r == 0,
{
    let r = version_segment(SCHEMA_VERSION, 2, 0);
    proof {
        lemma_schema_version_values();
    }
    r
}

/// The concrete segments of "1.0.0": major 1, minor 0, patch 0.
proof fn lemma_schema_version_values()
    ensures
        spec_version_segment("1.0.0"@, 0, 1) == 1,
        spec_version_segment("1.0.0"@, 1, 0) == 0,
        spec_version_segment("1.0.0"@, 2, 0) == 0,
{
    reveal_strlit("1.0.0");
    let s = "1.0.0"@;
    reveal_with_fuel(spec_find, 7);
    reveal_with_fuel(spec_segment_start, 4);
    assert(spec_find(s, '.', 0) == 1);
    assert(spec_find(s, '.', 2) == 3);
    assert(spec_find(s, '.', 4) == 5);
    assert(spec_segment_start(s, 0) == 0);
    assert(spec_segment_start(s, 1) == 2);
    assert(spec_segment_start(s, 2) == 4);
    assert(s.subrange(0, 1) =~= seq!['1']);
    assert(s.subrange(2, 3) =~= seq!['0']);
    assert(s.subrange(4, 5) =~= seq!['0']);
    assert(dec_digits_value(seq!['1']) == 1) by {
        assert(seq!['1'].drop_last() =~= Seq::<char>::empty());
        assert(dec_digits_value(Seq::<char>::empty()) == 0);
        assert(seq!['1'].last() == '1');
        assert('1' as int == 49);
    }
    assert(dec_digits_value(seq!['0']) == 0) by {
        assert(seq!['0'].drop_last() =~= Seq::<char>::empty());
        assert(dec_digits_value(Seq::<char>::empty()) == 0);
        assert(seq!['0'].last() == '0');
        assert('0' as int == 48);
    }
}

} // verus!
