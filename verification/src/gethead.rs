use vstd::prelude::*;

use crate::{Header, TransferWindow, headers_view};
use crate::numfmt::{spec_dec, u64_to_dec};
use crate::range::{
    ByteRangeSpec, RangeNegotiation, negotiate_range, ranges_view, ranges_wf, spec_negotiate_range,
};

verus! {

/// What the content-delivery handler knows about the file it serves:
/// its length, its entity tag, and — where the filesystem reports one —
/// its modification time already rendered as an HTTP date.
pub struct FileMeta {
    pub len: u64,
    pub etag: String,
    pub modified_httpdate: Option<String>,
}

/// The headers fixed before the range decision is acted on:
/// `Last-Modified` where a modification time is known, then `ETag` with
/// the quoted (strong) entity tag.
pub open spec fn spec_base_headers(meta: FileMeta) -> Seq<(Seq<char>, Seq<char>)> {
    let etag_header = ("ETag"@, seq!['"'] + meta.etag@ + seq!['"']);
    match meta.modified_httpdate {
        Some(m) => seq![("Last-Modified"@, m@), etag_header],
        None => seq![etag_header],
    }
}

/// The `Content-Range` value `bytes {start}-{end}/{total}` for a
/// resolved window.
pub open spec fn spec_content_range(w: TransferWindow) -> Seq<char> {
    "bytes "@ + spec_dec(w.start as nat) + seq!['-'] + spec_dec((w.start + w.count - 1) as nat)
        + seq!['/'] + spec_dec(w.total_len as nat)
}

/// How far the content-delivery handler got before a body decision:
/// it refused the range outright, a conditional header failed after the
/// validator headers were set, or it may proceed with a window.
pub enum GetNegotiation {
    /// The single requested range starts past the end: status 416,
    /// answered through the error path before any header is set.
    NotSatisfiable,
    /// An `If-Match`-family check failed with this status; the
    /// validator headers had already been set and accompany it.
    CondFail { status: u16, headers: Vec<Header> },
    /// Serve `window`, partially (206) or fully (200), with the
    /// validator headers set so far.
    Proceed { partial: bool, window: TransferWindow, headers: Vec<Header> },
}

/// Negotiate one `GET`/`HEAD` request, in the order the protocol
/// requires: `If-Range` first, then the single-range resolution (whose
/// unsatisfiable case short-circuits before any header is set), then the
/// validator headers, then the generic conditional family.
///
/// `if_range` and `cond_fail` carry the verdicts of the shared
/// conditional-match routine: `if_range` is `None` when no `If-Range`
/// header is present, and `cond_fail` is `Some(status)` when the
/// `If-Match` family demands that status instead of a body.
pub fn negotiate_get(
    meta: &FileMeta,
    if_range: Option<bool>,
    ranges: Option<&Vec<ByteRangeSpec>>,
    cond_fail: Option<u16>,
) -> (r: GetNegotiation)
    requires
        ranges_wf(ranges_view(ranges)),
    ensures
        ({
            let rn = spec_negotiate_range(if_range, ranges_view(ranges), meta.len);
            match r {
                GetNegotiation::NotSatisfiable => rn == RangeNegotiation::NotSatisfiable,
                GetNegotiation::CondFail { status, headers } => {
                    &&& rn != RangeNegotiation::NotSatisfiable
                    &&& cond_fail == Some(status)
                    &&& headers_view(headers@) == spec_base_headers(*meta)
                },
                GetNegotiation::Proceed { partial, window, headers } => {
                    &&& rn != RangeNegotiation::NotSatisfiable
                    &&& cond_fail is None
                    &&& headers_view(headers@) == spec_base_headers(*meta)
                    &&& match rn {
                        RangeNegotiation::Partial(w) => partial && window == w,
                        _ => !partial && window == (TransferWindow {
                            start: 0,
                            count: meta.len,
                            total_len: meta.len,
                        }),
                    }
                },
            }
        }),
        r matches GetNegotiation::Proceed { window, .. } ==> window.wf() && window.total_len
            == meta.len,
        r matches GetNegotiation::Proceed { partial: true, window, .. } ==> window.count > 0,
{
    let rn = negotiate_range(if_range, ranges, meta.len);
    let (partial, window) = match rn {
        RangeNegotiation::NotSatisfiable => {
            return GetNegotiation::NotSatisfiable;
        },
        RangeNegotiation::Partial(w) => (true, w),
        RangeNegotiation::Full => (false, TransferWindow::full(meta.len)),
    };
    let mut headers: Vec<Header> = Vec::new();
    match &meta.modified_httpdate {
        Some(m) => {
            headers.push((String::from_str("Last-Modified"), m.clone()));
        },
        None => {},
    }
    proof {
        reveal_strlit("\"");
    }
    let mut etag_value = String::from_str("\"");
    etag_value.append(meta.etag.as_str());
    etag_value.append("\"");
    proof {
        assert(etag_value@ =~= seq!['"'] + meta.etag@ + seq!['"']);
    }
    headers.push((String::from_str("ETag"), etag_value));
    proof {
        assert(headers_view(headers@) =~~= spec_base_headers(*meta));
    }
    match cond_fail {
        Some(status) => GetNegotiation::CondFail { status, headers },
        None => GetNegotiation::Proceed { partial, window, headers },
    }
}

/// The status a finished content response carries: 416 when the seek to
/// the window start failed, 206 for a served range, 200 otherwise.
pub open spec fn spec_finish_status(partial: bool, seek_ok: bool) -> u16 {
    if partial && !seek_ok {
        416
    } else if partial {
        206
    } else {
        200
    }
}

/// The headers of a finished content response. A failed seek keeps
/// only the validator headers already set; otherwise `Content-Range`
/// (for a range), `Content-Type`, `Content-Length` and `Accept-Ranges`
/// follow them.
pub open spec fn spec_finish_headers(
    base: Seq<(Seq<char>, Seq<char>)>,
    partial: bool,
    seek_ok: bool,
    window: TransferWindow,
    mime: Seq<char>,
) -> Seq<(Seq<char>, Seq<char>)> {
    if partial && !seek_ok {
        base
    } else {
        let ranged = if partial {
            base + seq![("Content-Range"@, spec_content_range(window))]
        } else {
            base
        };
        ranged + seq![
            ("Content-Type"@, mime),
            ("Content-Length"@, spec_dec(window.count as nat)),
            ("Accept-Ranges"@, "bytes"@),
        ]
    }
}

/// The body of a finished content response: the resolved window, except
/// that a `HEAD` request and a failed seek send none.
pub open spec fn spec_finish_body(
    partial: bool,
    seek_ok: bool,
    head: bool,
    window: TransferWindow,
) -> Option<TransferWindow> {
    if (partial && !seek_ok) || head {
        None
    } else {
        Some(window)
    }
}

/// A complete content response: status, headers in order, and the byte
/// window to stream (none for `HEAD` or after a failed seek).
pub struct GetResponse {
    pub status: u16,
    pub headers: Vec<Header>,
    pub body: Option<TransferWindow>,
}

/// Commit the headers and status of a negotiated `GET`/`HEAD` response.
/// `seek_ok` reports whether the seek to the window start succeeded; it
/// is only consulted when a range is being served. Headers are fixed
/// here, before any body byte is produced, and never change afterwards.
pub fn finish_get(
    partial: bool,
    window: TransferWindow,
    headers: Vec<Header>,
    seek_ok: bool,
    mime: &str,
    head: bool,
) -> (r: GetResponse)
    requires
        window.wf(),
        partial ==> window.count > 0,
    ensures
        r.status == spec_finish_status(partial, seek_ok),
        headers_view(r.headers@) == spec_finish_headers(
            headers_view(headers@),
            partial,
            seek_ok,
            window,
            mime@,
        ),
        r.body == spec_finish_body(partial, seek_ok, head, window),
{
    let mut headers = headers;
    if partial && !seek_ok {
        return GetResponse { status: 416, headers, body: None };
    }
    let ghost base = headers_view(headers@);
    if partial {
        proof {
            reveal_strlit("-");
            reveal_strlit("/");
        }
        let mut cr = String::from_str("bytes ");
        let part = u64_to_dec(window.start);
        cr.append(part.as_str());
        cr.append("-");
        let part = u64_to_dec(window.start + window.count - 1);
        cr.append(part.as_str());
        cr.append("/");
        let part = u64_to_dec(window.total_len);
        cr.append(part.as_str());
        proof {
            assert(cr@ =~= spec_content_range(window));
        }
        headers.push((String::from_str("Content-Range"), cr));
    }
    headers.push((String::from_str("Content-Type"), String::from_str(mime)));
    headers.push((String::from_str("Content-Length"), u64_to_dec(window.count)));
    headers.push((String::from_str("Accept-Ranges"), String::from_str("bytes")));
    proof {
        assert(headers_view(headers@) =~= spec_finish_headers(
            base,
            partial,
            seek_ok,
            window,
            mime@,
        ));
    }
    let status: u16 = if partial {
        206
    } else {
        200
    };
    let body = if head {
        None
    } else {
        Some(window)
    };
    GetResponse { status, headers, body }
}

/// A `HEAD` request is answered with exactly the status and headers of
/// the equivalent `GET` — neither `spec_finish_status` nor
/// `spec_finish_headers` consults the method at all — and never with a
/// body: only the `GET` body differs, and only by being present.
pub proof fn lemma_head_matches_get(
    partial: bool,
    seek_ok: bool,
    window: TransferWindow,
)
    ensures
        spec_finish_body(partial, seek_ok, true, window) is None,
        !(partial && !seek_ok) ==> spec_finish_body(partial, seek_ok, false, window) == Some(
            window,
        ),
{
}

} // verus!
