//! Steam id conversion: "STEAM_X:Y:Z" to the 64-bit form.
use vstd::prelude::*;

verus! {

/// The offset of the 64-bit id space of individual accounts.
pub const STEAM_ID64_BASE: i128 = 76561197960265728;

/// The first position at or after `from` that holds ':', or the length.
pub open spec fn colon_at(s: Seq<char>, from: int) -> int
    decreases s.len() - from,
{
    if from < 0 || from >= s.len() {
        s.len() as int
    } else if s[from] == ':' {
        from
    } else {
        colon_at(s, from + 1)
    }
}

pub open spec fn is_digit(c: char) -> bool {
    '0' <= c && c <= '9'
}

pub open spec fn all_digits(d: Seq<char>) -> bool {
    forall|i: int| 0 <= i < d.len() ==> is_digit(#[trigger] d[i])
}

/// The number that a string of decimal digits denotes.
pub open spec fn digits_value(d: Seq<char>) -> int
    decreases d.len(),
{
    if d.len() == 0 {
        0
    } else {
        digits_value(d.drop_last()) * 10 + (d.last() as int - '0' as int)
    }
}

/// The integer that `f` denotes in the notation that `i64`'s `FromStr`
/// reads: an optional `+` or `-`, then one or more decimal digits.
pub open spec fn signed_value(f: Seq<char>) -> Option<int> {
    if f.len() > 0 && (f[0] == '+' || f[0] == '-') {
        let rest = f.drop_first();
        if rest.len() > 0 && all_digits(rest) {
            Some(if f[0] == '-' { -digits_value(rest) } else { digits_value(rest) })
        } else {
            None
        }
    } else if f.len() > 0 && all_digits(f) {
        Some(digits_value(f))
    } else {
        None
    }
}

/// `f` read as an `i64`, when it is one.
pub open spec fn parse_i64(f: Seq<char>) -> Option<int> {
    match signed_value(f) {
        Some(v) => if i64::MIN <= v <= i64::MAX {
            Some(v)
        } else {
            None
        },
        None => None,
    }
}

/// The 64-bit form of a Steam id: its second and third ':'-separated fields
/// `y` and `z` read as `i64`, and `2z + y` plus the base, which must fit an
/// `i64`; the result is that number's bits as a `u64`.
pub open spec fn steam64_of(s: Seq<char>) -> Option<u64> {
    let c1 = colon_at(s, 0);
    let c2 = colon_at(s, c1 + 1);
    let c3 = colon_at(s, c2 + 1);
    if c1 >= s.len() || c2 >= s.len() {
        None
    } else {
        match (parse_i64(s.subrange(c1 + 1, c2)), parse_i64(s.subrange(c2 + 1, c3))) {
            (Some(y), Some(z)) => {
                let t = z * 2 + y + STEAM_ID64_BASE;
                if i64::MIN <= t <= i64::MAX {
                    Some(
                        if t >= 0 {
                            t as u64
                        } else {
                            (t + 0x1_0000_0000_0000_0000) as u64
                        },
                    )
                } else {
                    None
                }
            },
            _ => None,
        }
    }
}

proof fn lemma_digits_monotone(d: Seq<char>, k: int)
    requires
        0 <= k <= d.len(),
        all_digits(d),
    ensures
        digits_value(d.subrange(0, k)) <= digits_value(d),
        0 <= digits_value(d.subrange(0, k)),
    decreases d.len() - k,
{
    if k < d.len() {
        let e = d.subrange(0, k + 1);
        assert(e.drop_last() =~= d.subrange(0, k));
        lemma_digits_monotone(d, k + 1);
        assert(is_digit(d[k]));
    } else {
        assert(d.subrange(0, k) =~= d);
        lemma_digits_nonneg(d);
    }
}

proof fn lemma_digits_nonneg(d: Seq<char>)
    requires
        all_digits(d),
    ensures
        0 <= digits_value(d),
    decreases d.len(),
{
    if d.len() > 0 {
        assert(is_digit(d[d.len() - 1]));
        lemma_digits_nonneg(d.drop_last());
    }
}

/// The first position at or after `from` that holds ':', or the length.
fn next_colon(s: &str, n: usize, from: usize) -> (r: usize)
    requires
        n == s@.len(),
        from <= n,
    ensures
        r == colon_at(s@, from as int),
        from <= r <= n,
{
    let mut i = from;
    while i < n
        invariant
            n == s@.len(),
            from <= i <= n,
            colon_at(s@, from as int) == colon_at(s@, i as int),
        decreases n - i,
    {
        if s.get_char(i) == ':' {
            return i;
        }
        i = i + 1;
    }
    i
}

/// Reads the characters of `s` from `start` to `end` as an `i64`.
fn parse_field(s: &str, start: usize, end: usize) -> (r: Option<i64>)
    requires
        start <= end <= s@.len(),
    ensures
        r matches Some(v) ==> parse_i64(s@.subrange(start as int, end as int)) == Some(v as int),
        r is None ==> parse_i64(s@.subrange(start as int, end as int)) is None,
{
    let ghost f = s@.subrange(start as int, end as int);
    if start == end {
        return None;
    }
    let first = s.get_char(start);
    assert(f[0] == first);
    let negative = first == '-';
    let ds = if first == '+' || first == '-' {
        start + 1
    } else {
        start
    };
    if ds == end {
        return None;
    }
    let ghost d = s@.subrange(ds as int, end as int);
    proof {
        if ds > start {
            assert(d =~= f.drop_first());
        } else {
            assert(d =~= f);
        }
    }
    let mut m: i128 = 0;
    let mut i = ds;
    while i < end
        invariant
            ds <= i <= end <= s@.len(),
            d == s@.subrange(ds as int, end as int),
            f == s@.subrange(start as int, end as int),
            f.len() > 0,
            f[0] == first,
            negative == (first == '-'),
            (first == '+' || first == '-') ==> ds == start + 1 && d == f.drop_first(),
            !(first == '+' || first == '-') ==> ds == start && d == f,
            all_digits(s@.subrange(ds as int, i as int)),
            m == digits_value(s@.subrange(ds as int, i as int)),
            0 <= m <= 0x8000_0000_0000_0000,
        decreases end - i,
    {
        let c = s.get_char(i);
        if c < '0' || c > '9' {
            assert(d[i - ds] == c);
            assert(!all_digits(d));
            return None;
        }
        let ghost pre = s@.subrange(ds as int, i as int);
        let ghost next = s@.subrange(ds as int, i + 1);
        assert(next.drop_last() =~= pre);
        assert(next.last() == c);
        m = m * 10 + (c as u32 - '0' as u32) as i128;
        i = i + 1;
        assert forall|k: int| 0 <= k < next.len() implies is_digit(#[trigger] next[k]) by {
            if k < pre.len() {
                assert(next[k] == pre[k]);
            }
        }
        if m > 0x8000_0000_0000_0000 {
            proof {
                if all_digits(d) {
                    assert(d.subrange(0, i - ds) =~= next);
                    lemma_digits_monotone(d, i - ds);
                }
            }
            return None;
        }
    }
    assert(s@.subrange(ds as int, i as int) =~= d);
    let v: i128 = if negative {
        -m
    } else {
        m
    };
    if v > i64::MAX as i128 {
        return None;
    }
    Some(v as i64)
}

/// Converts a Steam id of the form "STEAM_X:Y:Z" to its 64-bit form;
/// `None` when a field is missing, is not an `i64`, or the sum overflows.
pub fn convert_steamid_to_64(steamid: &String) -> (r: Option<u64>)
    ensures
        r == steam64_of(steamid@),
{
    let s = steamid.as_str();
    let n = s.unicode_len();
    let c1 = next_colon(s, n, 0);
    if c1 >= n {
        return None;
    }
    let c2 = next_colon(s, n, c1 + 1);
    if c2 >= n {
        return None;
    }
    let c3 = next_colon(s, n, c2 + 1);
    let y = match parse_field(s, c1 + 1, c2) {
        Some(v) => v,
        None => {
            return None;
        },
    };
    let z = match parse_field(s, c2 + 1, c3) {
        Some(v) => v,
        None => {
            return None;
        },
    };
    let t: i128 = z as i128 * 2 + y as i128 + STEAM_ID64_BASE;
    if t < i64::MIN as i128 || t > i64::MAX as i128 {
        return None;
    }
    if t >= 0 {
        Some(t as u64)
    } else {
        Some((t + 0x1_0000_0000_0000_0000) as u64)
    }
}

} // verus!
