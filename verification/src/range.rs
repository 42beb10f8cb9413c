use vstd::prelude::*;

use crate::TransferWindow;

verus! {

/// One byte-range specifier from a `Range` header.
///
/// `FromTo(s, e)` asks for bytes `s..=e`, `AllFrom(s)` for everything from
/// `s` to the end, and `Last(n)` for the final `n` bytes of the resource.
pub enum ByteRangeSpec {
    FromTo(u64, u64),
    AllFrom(u64),
    Last(u64),
}

impl ByteRangeSpec {
    /// A `FromTo` specifier must not be inverted; the header parser never
    /// produces one that is.
    pub open spec fn wf(self) -> bool {
        match self {
            ByteRangeSpec::FromTo(s, e) => s <= e,
            _ => true,
        }
    }
}

/// What range negotiation decided for one request.
pub enum RangeNegotiation {
    /// Serve the whole resource with status 200.
    Full,
    /// The single requested range starts at or past the end of the
    /// resource: answer "range not satisfiable" and send no body.
    NotSatisfiable,
    /// Serve the window with status 206.
    Partial(TransferWindow),
}

/// First byte asked for by a specifier, against a resource of `len` bytes.
/// A suffix longer than the resource starts at byte zero.
pub open spec fn spec_range_start(r: ByteRangeSpec, len: int) -> int {
    match r {
        ByteRangeSpec::FromTo(s, _) => s as int,
        ByteRangeSpec::AllFrom(s) => s as int,
        ByteRangeSpec::Last(n) => if n <= len {
            len - n
        } else {
            0
        },
    }
}

/// Number of bytes asked for by a specifier, before clamping to the
/// end of the resource.
pub open spec fn spec_range_want(r: ByteRangeSpec, len: int) -> int {
    match r {
        ByteRangeSpec::FromTo(s, e) => e - s + 1,
        ByteRangeSpec::AllFrom(s) => len - s,
        ByteRangeSpec::Last(n) => n as int,
    }
}

/// Resolve a single range specifier against a resource of `len` bytes:
/// a start at or past the end is unsatisfiable, and a window reaching
/// past the end is clamped to it.
pub open spec fn spec_resolve_range(r: ByteRangeSpec, len: u64) -> RangeNegotiation {
    let start = spec_range_start(r, len as int);
    let want = spec_range_want(r, len as int);
    if start >= len {
        RangeNegotiation::NotSatisfiable
    } else {
        let count = if want <= len - start {
            want
        } else {
            len - start
        };
        RangeNegotiation::Partial(
            TransferWindow { start: start as u64, count: count as u64, total_len: len },
        )
    }
}

/// Range negotiation for a whole request.
///
/// `if_range` is `None` when no `If-Range` header is present, otherwise
/// `Some(m)` where `m` says whether it matched the current entity tag or
/// modification time. `ranges` is `None` when no (well-formed) `Range`
/// header is present.
///
/// A non-matching `If-Range` makes the request a full-body one before the
/// `Range` header is even looked at, and a `Range` header naming zero or
/// several ranges is by policy treated as if it were absent.
pub open spec fn spec_negotiate_range(
    if_range: Option<bool>,
    ranges: Option<Seq<ByteRangeSpec>>,
    len: u64,
) -> RangeNegotiation {
    if if_range == Some(false) {
        RangeNegotiation::Full
    } else {
        match ranges {
            Some(rs) => if rs.len() == 1 {
                spec_resolve_range(rs[0], len)
            } else {
                RangeNegotiation::Full
            },
            None => RangeNegotiation::Full,
        }
    }
}

/// Every specifier in a parsed `Range` header is well formed.
pub open spec fn ranges_wf(ranges: Option<Seq<ByteRangeSpec>>) -> bool {
    match ranges {
        Some(rs) => forall|i: int| 0 <= i < rs.len() ==> #[trigger] rs[i].wf(),
        None => true,
    }
}

/// Map an `Option<&Vec<_>>` of parsed ranges to its view.
pub open spec fn ranges_view(ranges: Option<&Vec<ByteRangeSpec>>) -> Option<Seq<ByteRangeSpec>> {
    match ranges {
        Some(v) => Some(v@),
        None => None,
    }
}

/// Decide between a full body, a partial window and "not satisfiable"
/// from the `If-Range` match result, the parsed `Range` header and the
/// resource length.
pub fn negotiate_range(
    if_range: Option<bool>,
    ranges: Option<&Vec<ByteRangeSpec>>,
    len: u64,
) -> (r: RangeNegotiation)
    requires
        ranges_wf(ranges_view(ranges)),
    ensures
        r == spec_negotiate_range(if_range, ranges_view(ranges), len),
        r matches RangeNegotiation::Partial(w) ==> w.wf() && w.total_len == len && w.count > 0,
{
    let do_range = match if_range {
        Some(m) => m,
        None => true,
    };
    if !do_range {
        return RangeNegotiation::Full;
    }
    match ranges {
        Some(rs) if rs.len() == 1 => resolve_range(&rs[0], len),
        _ => RangeNegotiation::Full,
    }
}

/// Resolve one well-formed range specifier against the resource length.
pub fn resolve_range(r: &ByteRangeSpec, len: u64) -> (out: RangeNegotiation)
    requires
        r.wf(),
    ensures
        out == spec_resolve_range(*r, len),
        out matches RangeNegotiation::Partial(w) ==> w.wf() && w.total_len == len && w.count > 0,
{
    let start: u64 = match r {
        ByteRangeSpec::FromTo(s, _) => *s,
        ByteRangeSpec::AllFrom(s) => *s,
        ByteRangeSpec::Last(n) => if *n <= len {
            len - *n
        } else {
            0
        },
    };
    if start >= len {
        return RangeNegotiation::NotSatisfiable;
    }
    let avail: u64 = len - start;
    let count: u64 = match r {
        ByteRangeSpec::FromTo(s, e) => {
            let c = *e - *s;
            if c >= avail {
                avail
            } else {
                c + 1
            }
        },
        ByteRangeSpec::AllFrom(_) => avail,
        ByteRangeSpec::Last(n) => if *n <= avail {
            *n
        } else {
            avail
        },
    };
    RangeNegotiation::Partial(TransferWindow { start, count, total_len: len })
}

/// For `0 <= start <= end < total_len`, a `From-To(start, end)` range
/// resolves to the window `{start, end - start + 1}`.
pub proof fn lemma_resolve_from_to(s: u64, e: u64, len: u64)
    requires
        s <= e < len,
    ensures
        spec_resolve_range(ByteRangeSpec::FromTo(s, e), len) == RangeNegotiation::Partial(
            TransferWindow { start: s, count: (e - s + 1) as u64, total_len: len },
        ),
{
}

/// For `s < total_len`, a `From(s)` range resolves to the window
/// `{s, total_len - s}`.
pub proof fn lemma_resolve_all_from(s: u64, len: u64)
    requires
        s < len,
    ensures
        spec_resolve_range(ByteRangeSpec::AllFrom(s), len) == RangeNegotiation::Partial(
            TransferWindow { start: s, count: (len - s) as u64, total_len: len },
        ),
{
}

/// For `0 < n <= total_len`, a `Suffix-Length(n)` range resolves to the
/// window `{total_len - n, n}`.
pub proof fn lemma_resolve_suffix(n: u64, len: u64)
    requires
        0 < n <= len,
    ensures
        spec_resolve_range(ByteRangeSpec::Last(n), len) == RangeNegotiation::Partial(
            TransferWindow { start: (len - n) as u64, count: n, total_len: len },
        ),
{
}

/// Any single range whose resolved start lies at or past the end of the
/// resource is answered "range not satisfiable".
pub proof fn lemma_resolve_unsatisfiable(r: ByteRangeSpec, len: u64)
    requires
        spec_range_start(r, len as int) >= len,
    ensures
        spec_resolve_range(r, len) == RangeNegotiation::NotSatisfiable,
{
}

/// A `Range` header naming two or more ranges (or none at all) is
/// equivalent to no `Range` header: the response is a full body.
pub proof fn lemma_multi_range_is_full(
    if_range: Option<bool>,
    rs: Seq<ByteRangeSpec>,
    len: u64,
)
    requires
        rs.len() != 1,
    ensures
        spec_negotiate_range(if_range, Some(rs), len) == RangeNegotiation::Full,
{
}

/// A present, non-matching `If-Range` header makes the request a
/// full-body one, whatever the `Range` header says.
pub proof fn lemma_if_range_mismatch_ignores_range(
    ranges: Option<Seq<ByteRangeSpec>>,
    len: u64,
)
    ensures
        spec_negotiate_range(Some(false), ranges, len) == RangeNegotiation::Full,
{
}

} // verus!
