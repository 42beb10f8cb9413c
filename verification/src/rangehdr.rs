use vstd::prelude::*;

use crate::range::{ByteRangeSpec, ranges_wf};

verus! {

/// A decimal digit.
pub open spec fn is_digit(c: char) -> bool {
    48 <= c as u32 <= 57
}

/// The value of one decimal digit.
pub open spec fn digit_val(c: char) -> int {
    c as u32 - 48
}

/// Every character is a decimal digit.
pub open spec fn all_digits(s: Seq<char>) -> bool {
    forall|i: int| 0 <= i < s.len() ==> is_digit(#[trigger] s[i])
}

/// The value of a decimal digit string.
pub open spec fn spec_dec_val(s: Seq<char>) -> int
    decreases s.len(),
{
    if s.len() == 0 {
        0
    } else {
        spec_dec_val(s.drop_last()) * 10 + digit_val(s.last())
    }
}

/// A digit string's value never goes down as the string grows, and is
/// never negative.
proof fn lemma_dec_val_prefix(s: Seq<char>, k: int)
    requires
        all_digits(s),
        0 <= k <= s.len(),
    ensures
        0 <= spec_dec_val(s.take(k)) <= spec_dec_val(s),
    decreases s.len(),
{
    if s.len() == 0 {
        assert(s.take(k) =~= s);
    } else if k == s.len() {
        assert(s.take(k) =~= s);
        lemma_dec_val_prefix(s.drop_last(), k - 1);
        let v = spec_dec_val(s.drop_last());
        let d = digit_val(s.last());
        assert(v * 10 + d >= 0 && v * 10 + d >= v) by (nonlinear_arith)
            requires
                v >= 0,
                d >= 0,
        ;
    } else {
        assert(all_digits(s.drop_last()));
        lemma_dec_val_prefix(s.drop_last(), k);
        assert(s.take(k) =~= s.drop_last().take(k));
        let v = spec_dec_val(s.drop_last());
        let d = digit_val(s.last());
        assert(is_digit(s.last()));
        assert(v * 10 + d >= v) by (nonlinear_arith)
            requires
                v >= 0,
                d >= 0,
        ;
    }
}

/// A nonempty all-digit string whose value fits in an unsigned 64-bit
/// integer; anything else does not name a byte position.
pub open spec fn spec_num(s: Seq<char>) -> Option<u64> {
    if s.len() > 0 && all_digits(s) && spec_dec_val(s) <= u64::MAX {
        Some(spec_dec_val(s) as u64)
    } else {
        None
    }
}

/// `d` is the position of the first occurrence of `ch` in `s`.
pub open spec fn is_first_at(s: Seq<char>, ch: char, d: int) -> bool {
    &&& 0 <= d < s.len()
    &&& s[d] == ch
    &&& forall|m: int| 0 <= m < d ==> s[m] != ch
}

/// First occurrences are unique.
proof fn lemma_first_at_unique(s: Seq<char>, ch: char, d1: int, d2: int)
    requires
        is_first_at(s, ch, d1),
        is_first_at(s, ch, d2),
    ensures
        d1 == d2,
{
}

/// How one range specifier reads: `first-last` (first at most last),
/// `first-` (from a position to the end), or `-n` (the last `n` bytes);
/// positions must be decimal numbers that fit 64 bits.
pub open spec fn spec_parse_one(s: Seq<char>) -> Option<ByteRangeSpec> {
    if exists|d: int| is_first_at(s, '-', d) {
        let d = choose|d: int| is_first_at(s, '-', d);
        let left = s.take(d);
        let right = s.skip(d + 1);
        if d == 0 {
            match spec_num(right) {
                Some(n) => Some(ByteRangeSpec::Last(n)),
                None => None,
            }
        } else {
            match spec_num(left) {
                None => None,
                Some(a) => if right.len() == 0 {
                    Some(ByteRangeSpec::AllFrom(a))
                } else {
                    match spec_num(right) {
                        Some(b) => if a <= b {
                            Some(ByteRangeSpec::FromTo(a, b))
                        } else {
                            None
                        },
                        None => None,
                    }
                },
            }
        }
    } else {
        None
    }
}

/// How a comma-separated list of range specifiers reads: every
/// specifier must be well formed, or the whole list is refused.
pub open spec fn spec_parse_list(s: Seq<char>) -> Option<Seq<ByteRangeSpec>>
    decreases s.len(),
{
    if exists|c: int| is_first_at(s, ',', c) {
        let c = choose|c: int| is_first_at(s, ',', c);
        match spec_parse_one(s.take(c)) {
            None => None,
            Some(r) => match spec_parse_list(s.skip(c + 1)) {
                None => None,
                Some(rest) => Some(seq![r] + rest),
            },
        }
    } else {
        match spec_parse_one(s) {
            None => None,
            Some(r) => Some(seq![r]),
        }
    }
}

/// How a whole `Range` header value reads: the unit `bytes=` followed
/// by the specifier list. A header that does not read is treated as if
/// it were absent, never as an error.
pub open spec fn spec_parse_range_header(s: Seq<char>) -> Option<Seq<ByteRangeSpec>> {
    if s.len() >= 6 && s.take(6) == "bytes="@ {
        spec_parse_list(s.skip(6))
    } else {
        None
    }
}

/// The view of an optional specifier vector.
pub open spec fn opt_ranges_view(r: Option<Vec<ByteRangeSpec>>) -> Option<Seq<ByteRangeSpec>> {
    match r {
        Some(v) => Some(v@),
        None => None,
    }
}

/// Parse the decimal number in `s[a..b)`.
fn parse_num(s: &str, a: usize, b: usize) -> (r: Option<u64>)
    requires
        a <= b <= s@.len(),
    ensures
        r == spec_num(s@.subrange(a as int, b as int)),
{
    let ghost sub = s@.subrange(a as int, b as int);
    if a == b {
        return None;
    }
    let mut val: u64 = 0;
    let mut i = a;
    proof {
        assert(sub.take(0) =~= Seq::<char>::empty());
    }
    while i < b
        invariant
            a <= i <= b <= s@.len(),
            sub == s@.subrange(a as int, b as int),
            all_digits(sub.take(i - a)),
            val as int == spec_dec_val(sub.take(i - a)),
        decreases b - i,
    {
        let u = s.get_char(i) as u32;
        proof {
            assert(sub[i - a] == s@[i as int]);
        }
        if u < 48 || u > 57 {
            proof {
                assert(!is_digit(sub[i - a]));
                assert(!all_digits(sub));
            }
            return None;
        }
        let d = (u - 48) as u64;
        proof {
            assert(sub.take(i - a + 1).drop_last() =~= sub.take(i - a));
            assert(sub.take(i - a + 1).last() == sub[i - a]);
            assert(all_digits(sub.take(i - a + 1)));
        }
        if val > (u64::MAX - d) / 10 {
            proof {
                let v = val as int;
                let dd = d as int;
                let m = u64::MAX as int;
                assert(v * 10 + dd > m) by (nonlinear_arith)
                    requires
                        v > (m - dd) / 10,
                        0 <= dd <= 9,
                        m == u64::MAX as int,
                ;
                assert(spec_dec_val(sub.take(i - a + 1)) > u64::MAX);
                if all_digits(sub) {
                    lemma_dec_val_prefix(sub, i - a + 1);
                }
            }
            return None;
        }
        proof {
            let v = val as int;
            let dd = d as int;
            let m = u64::MAX as int;
            assert(v * 10 + dd <= m) by (nonlinear_arith)
                requires
                    v <= (m - dd) / 10,
                    0 <= dd <= 9,
                    m == u64::MAX as int,
            ;
        }
        val = val * 10 + d;
        i = i + 1;
    }
    proof {
        assert(sub.take(i - a) =~= sub);
    }
    Some(val)
}

/// Parse one range specifier in `s[a..b)`.
fn parse_one(s: &str, a: usize, b: usize) -> (r: Option<ByteRangeSpec>)
    requires
        a <= b <= s@.len(),
    ensures
        r == spec_parse_one(s@.subrange(a as int, b as int)),
        r matches Some(one) ==> one.wf(),
{
    let ghost sub = s@.subrange(a as int, b as int);
    let mut k = a;
    while k < b && s.get_char(k) != '-'
        invariant
            a <= k <= b <= s@.len(),
            forall|m: int| a <= m < k ==> s@[m] != '-',
        decreases b - k,
    {
        k = k + 1;
    }
    if k == b {
        proof {
            assert forall|d: int| !is_first_at(sub, '-', d) by {
                if 0 <= d < sub.len() {
                    assert(sub[d] == s@[a + d]);
                }
            }
        }
        return None;
    }
    proof {
        assert(sub[k - a] == s@[k as int]);
        assert forall|m: int| 0 <= m < k - a implies sub[m] != '-' by {
            assert(sub[m] == s@[a + m]);
        }
        assert(is_first_at(sub, '-', k - a));
        let d0 = choose|d: int| is_first_at(sub, '-', d);
        lemma_first_at_unique(sub, '-', d0, k - a);
        assert(sub.take(k - a) =~= s@.subrange(a as int, k as int));
        assert(sub.skip(k - a + 1) =~= s@.subrange(k + 1, b as int));
    }
    if k == a {
        match parse_num(s, k + 1, b) {
            Some(n) => Some(ByteRangeSpec::Last(n)),
            None => None,
        }
    } else {
        match parse_num(s, a, k) {
            None => None,
            Some(x) => {
                if k + 1 == b {
                    Some(ByteRangeSpec::AllFrom(x))
                } else {
                    match parse_num(s, k + 1, b) {
                        Some(y) => if x <= y {
                            Some(ByteRangeSpec::FromTo(x, y))
                        } else {
                            None
                        },
                        None => None,
                    }
                }
            },
        }
    }
}

/// Parse the specifier list in `s[from..)`.
fn parse_list(s: &str, from: usize) -> (r: Option<Vec<ByteRangeSpec>>)
    requires
        from <= s@.len(),
    ensures
        opt_ranges_view(r) == spec_parse_list(s@.skip(from as int)),
        ranges_wf(opt_ranges_view(r)),
    decreases s@.len() - from,
{
    let ghost sub = s@.skip(from as int);
    let n = s.unicode_len();
    let mut j = from;
    while j < n && s.get_char(j) != ','
        invariant
            from <= j <= n == s@.len(),
            forall|m: int| from <= m < j ==> s@[m] != ',',
        decreases n - j,
    {
        j = j + 1;
    }
    if j < n {
        proof {
            assert(sub[j - from] == s@[j as int]);
            assert forall|m: int| 0 <= m < j - from implies sub[m] != ',' by {
                assert(sub[m] == s@[from + m]);
            }
            assert(is_first_at(sub, ',', j - from));
            let c0 = choose|c: int| is_first_at(sub, ',', c);
            lemma_first_at_unique(sub, ',', c0, j - from);
            assert(sub.take(j - from) =~= s@.subrange(from as int, j as int));
            assert(sub.skip(j - from + 1) =~= s@.skip(j + 1));
        }
        match parse_one(s, from, j) {
            None => None,
            Some(one) => match parse_list(s, j + 1) {
                None => None,
                Some(mut rest) => {
                    rest.insert(0, one);
                    proof {
                        assert(rest@ =~= seq![one] + rest@.skip(1));
                    }
                    Some(rest)
                },
            },
        }
    } else {
        proof {
            assert forall|c: int| !is_first_at(sub, ',', c) by {
                if 0 <= c < sub.len() {
                    assert(sub[c] == s@[from + c]);
                }
            }
            assert(sub =~= s@.subrange(from as int, n as int));
        }
        match parse_one(s, from, n) {
            None => None,
            Some(one) => {
                let mut v: Vec<ByteRangeSpec> = Vec::new();
                v.push(one);
                proof {
                    assert(v@ =~= seq![one]);
                }
                Some(v)
            },
        }
    }
}

/// Parse a `Range` header value. A value that does not read as
/// `bytes=` followed by well-formed specifiers yields `None`, and the
/// caller treats the header as absent.
pub fn parse_range_header(s: &str) -> (r: Option<Vec<ByteRangeSpec>>)
    ensures
        opt_ranges_view(r) == spec_parse_range_header(s@),
        ranges_wf(opt_ranges_view(r)),
{
    proof {
        reveal_strlit("bytes=");
    }
    let n = s.unicode_len();
    if n < 6 {
        return None;
    }
    let ok = s.get_char(0) == 'b' && s.get_char(1) == 'y' && s.get_char(2) == 't' && s.get_char(3)
        == 'e' && s.get_char(4) == 's' && s.get_char(5) == '=';
    if !ok {
        proof {
            if s@.take(6) == "bytes="@ {
                assert forall|m: int| 0 <= m < 6 implies s@[m] == "bytes="@[m] by {
                    assert(s@.take(6)[m] == s@[m]);
                }
                assert(false);
            }
        }
        return None;
    }
    proof {
        assert(s@.take(6) =~= "bytes="@);
    }
    parse_list(s, 6)
}

} // verus!
