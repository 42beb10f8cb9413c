use davcore::gethead::{negotiate_get, finish_get, FileMeta, GetNegotiation};
use davcore::range::{negotiate_range, resolve_range, ByteRangeSpec, RangeNegotiation};
use davcore::rangehdr::parse_range_header;
use davcore::numfmt::{u64_to_dec, u64_to_dec_pad};
use davcore::stream::body_chunk;
use davcore::TransferWindow;

#[test]
fn from_to_window() {
    let r = resolve_range(&ByteRangeSpec::FromTo(2, 5), 10);
    match r {
        RangeNegotiation::Partial(w) => {
            assert_eq!(w.start, 2);
            assert_eq!(w.count, 4);
            assert_eq!(w.total_len, 10);
        }
        _ => panic!("expected a window"),
    }
}

#[test]
fn all_from_window() {
    let r = resolve_range(&ByteRangeSpec::AllFrom(3), 10);
    match r {
        RangeNegotiation::Partial(w) => {
            assert_eq!(w.start, 3);
            assert_eq!(w.count, 7);
        }
        _ => panic!("expected a window"),
    }
}

#[test]
fn suffix_window() {
    let r = resolve_range(&ByteRangeSpec::Last(4), 10);
    match r {
        RangeNegotiation::Partial(w) => {
            assert_eq!(w.start, 6);
            assert_eq!(w.count, 4);
        }
        _ => panic!("expected a window"),
    }
}

#[test]
fn from_to_clamped_to_end() {
    let r = resolve_range(&ByteRangeSpec::FromTo(8, 100), 10);
    match r {
        RangeNegotiation::Partial(w) => {
            assert_eq!(w.start, 8);
            assert_eq!(w.count, 2);
        }
        _ => panic!("expected a window"),
    }
}

#[test]
fn start_past_end_not_satisfiable() {
    let r = resolve_range(&ByteRangeSpec::FromTo(10, 12), 10);
    assert!(matches!(r, RangeNegotiation::NotSatisfiable));
    let r = resolve_range(&ByteRangeSpec::AllFrom(10), 10);
    assert!(matches!(r, RangeNegotiation::NotSatisfiable));
}

#[test]
fn empty_resource_refuses_ranges() {
    let r = resolve_range(&ByteRangeSpec::AllFrom(0), 0);
    assert!(matches!(r, RangeNegotiation::NotSatisfiable));
}

#[test]
fn two_ranges_fall_back_to_full() {
    let ranges = vec![ByteRangeSpec::FromTo(0, 1), ByteRangeSpec::FromTo(4, 5)];
    let r = negotiate_range(None, Some(&ranges), 10);
    assert!(matches!(r, RangeNegotiation::Full));
}

#[test]
fn if_range_mismatch_ignores_range() {
    let ranges = vec![ByteRangeSpec::FromTo(0, 1)];
    let r = negotiate_range(Some(false), Some(&ranges), 10);
    assert!(matches!(r, RangeNegotiation::Full));
    let r = negotiate_range(Some(true), Some(&ranges), 10);
    assert!(matches!(r, RangeNegotiation::Partial(_)));
}

#[test]
fn parse_single_from_to() {
    let r = parse_range_header("bytes=0-499").expect("should parse");
    assert_eq!(r.len(), 1);
    assert!(matches!(r[0], ByteRangeSpec::FromTo(0, 499)));
}

#[test]
fn parse_open_and_suffix() {
    let r = parse_range_header("bytes=500-").expect("should parse");
    assert!(matches!(r[0], ByteRangeSpec::AllFrom(500)));
    let r = parse_range_header("bytes=-500").expect("should parse");
    assert!(matches!(r[0], ByteRangeSpec::Last(500)));
}

#[test]
fn parse_two_ranges() {
    let r = parse_range_header("bytes=0-4,10-14").expect("should parse");
    assert_eq!(r.len(), 2);
    assert!(matches!(r[0], ByteRangeSpec::FromTo(0, 4)));
    assert!(matches!(r[1], ByteRangeSpec::FromTo(10, 14)));
}

#[test]
fn parse_rejects_malformed() {
    assert!(parse_range_header("items=0-4").is_none());
    assert!(parse_range_header("bytes=5-2").is_none());
    assert!(parse_range_header("bytes=").is_none());
    assert!(parse_range_header("bytes=abc-").is_none());
    assert!(parse_range_header("bytes=99999999999999999999-").is_none());
    assert!(parse_range_header("").is_none());
}

fn meta_10() -> FileMeta {
    FileMeta {
        len: 10,
        etag: String::from("abc123"),
        modified_httpdate: Some(String::from("Sun, 06 Nov 1994 08:49:37 GMT")),
    }
}

#[test]
fn validator_headers_set_in_order() {
    let r = negotiate_get(&meta_10(), None, None, None);
    match r {
        GetNegotiation::Proceed { partial, window, headers } => {
            assert!(!partial);
            assert_eq!(window.count, 10);
            assert_eq!(headers[0].0, "Last-Modified");
            assert_eq!(headers[0].1, "Sun, 06 Nov 1994 08:49:37 GMT");
            assert_eq!(headers[1].0, "ETag");
            assert_eq!(headers[1].1, "\"abc123\"");
        }
        _ => panic!("expected to proceed"),
    }
}

#[test]
fn conditional_failure_keeps_validators() {
    let r = negotiate_get(&meta_10(), None, None, Some(412));
    match r {
        GetNegotiation::CondFail { status, headers } => {
            assert_eq!(status, 412);
            assert_eq!(headers.len(), 2);
        }
        _ => panic!("expected a conditional failure"),
    }
}

#[test]
fn unsatisfiable_range_short_circuits() {
    let ranges = vec![ByteRangeSpec::AllFrom(10)];
    let r = negotiate_get(&meta_10(), None, Some(&ranges), Some(412));
    assert!(matches!(r, GetNegotiation::NotSatisfiable));
}

#[test]
fn partial_response_headers() {
    let ranges = vec![ByteRangeSpec::FromTo(2, 5)];
    let neg = negotiate_get(&meta_10(), None, Some(&ranges), None);
    let (partial, window, headers) = match neg {
        GetNegotiation::Proceed { partial, window, headers } => (partial, window, headers),
        _ => panic!("expected to proceed"),
    };
    assert!(partial);
    let r = finish_get(partial, window, headers, true, "text/plain", false);
    assert_eq!(r.status, 206);
    let names: Vec<&str> = r.headers.iter().map(|h| h.0.as_str()).collect();
    assert_eq!(
        names,
        vec!["Last-Modified", "ETag", "Content-Range", "Content-Type", "Content-Length", "Accept-Ranges"]
    );
    assert_eq!(r.headers[2].1, "bytes 2-5/10");
    assert_eq!(r.headers[3].1, "text/plain");
    assert_eq!(r.headers[4].1, "4");
    assert_eq!(r.headers[5].1, "bytes");
    let w = r.body.expect("a GET has a body");
    assert_eq!(w.start, 2);
    assert_eq!(w.count, 4);
}

#[test]
fn full_response_headers() {
    let neg = negotiate_get(&meta_10(), None, None, None);
    let (partial, window, headers) = match neg {
        GetNegotiation::Proceed { partial, window, headers } => (partial, window, headers),
        _ => panic!("expected to proceed"),
    };
    let r = finish_get(partial, window, headers, true, "text/plain", false);
    assert_eq!(r.status, 200);
    assert_eq!(r.headers.len(), 5);
    assert_eq!(r.headers[3].1, "10");
}

#[test]
fn failed_seek_is_416_with_empty_body() {
    let ranges = vec![ByteRangeSpec::FromTo(2, 5)];
    let neg = negotiate_get(&meta_10(), None, Some(&ranges), None);
    let (partial, window, headers) = match neg {
        GetNegotiation::Proceed { partial, window, headers } => (partial, window, headers),
        _ => panic!("expected to proceed"),
    };
    let r = finish_get(partial, window, headers, false, "text/plain", false);
    assert_eq!(r.status, 416);
    assert_eq!(r.headers.len(), 2);
    assert!(r.body.is_none());
}

#[test]
fn head_headers_match_get() {
    let ranges = vec![ByteRangeSpec::FromTo(2, 5)];
    for head in [false, true] {
        let neg = negotiate_get(&meta_10(), None, Some(&ranges), None);
        let (partial, window, headers) = match neg {
            GetNegotiation::Proceed { partial, window, headers } => (partial, window, headers),
            _ => panic!("expected to proceed"),
        };
        let r = finish_get(partial, window, headers, true, "text/plain", head);
        assert_eq!(r.status, 206);
        assert_eq!(r.headers.len(), 6);
        assert_eq!(r.body.is_none(), head);
    }
}

#[test]
fn chunk_clips_read_to_window() {
    let buf = vec![1u8, 2, 3, 4, 5, 6, 7, 8];
    let chunk = body_chunk(&buf, 8, 3);
    assert_eq!(chunk, vec![1, 2, 3]);
    let chunk = body_chunk(&buf, 5, 100);
    assert_eq!(chunk, vec![1, 2, 3, 4, 5]);
}

#[test]
fn truncated_file_is_padded_to_promised_length() {
    // Six bytes promised, but the source ends after four: the transfer
    // loop pads the remainder with zero bytes rather than cutting the
    // response short.
    let content = vec![9u8, 9, 9, 9];
    let promised: u64 = 6;
    let mut remaining = promised;
    let mut sent: Vec<u8> = Vec::new();
    let mut offset = 0usize;
    while remaining > 0 {
        let buf: Vec<u8> = content[offset.min(content.len())..].to_vec();
        let n = buf.len();
        let padded = vec![0u8; 8192];
        let chunk = if n > 0 {
            body_chunk(&buf, n, remaining)
        } else {
            body_chunk(&padded, 0, remaining)
        };
        offset += chunk.len();
        remaining -= chunk.len() as u64;
        sent.extend_from_slice(&chunk);
    }
    assert_eq!(sent.len() as u64, promised);
    assert_eq!(sent, vec![9, 9, 9, 9, 0, 0]);
}

#[test]
fn zero_read_pads_at_most_a_block() {
    let buf: Vec<u8> = Vec::new();
    let chunk = body_chunk(&buf, 0, 10_000);
    assert_eq!(chunk.len(), 4096);
    assert!(chunk.iter().all(|b| *b == 0));
    let chunk = body_chunk(&buf, 0, 7);
    assert_eq!(chunk, vec![0, 0, 0, 0, 0, 0, 0]);
}

#[test]
fn empty_file_served_in_full() {
    let meta = FileMeta { len: 0, etag: String::from("e"), modified_httpdate: None };
    let neg = negotiate_get(&meta, None, None, None);
    let (partial, window, headers) = match neg {
        GetNegotiation::Proceed { partial, window, headers } => (partial, window, headers),
        _ => panic!("expected to proceed"),
    };
    assert_eq!(headers.len(), 1);
    assert_eq!(headers[0].0, "ETag");
    let r = finish_get(partial, window, headers, true, "text/plain", false);
    assert_eq!(r.status, 200);
    assert_eq!(r.headers[2].1, "0");
    assert_eq!(r.body.unwrap().count, 0);
}

#[test]
fn single_byte_range() {
    let r = parse_range_header("bytes=0-0").expect("should parse");
    assert!(matches!(r[0], ByteRangeSpec::FromTo(0, 0)));
    match resolve_range(&r[0], 10) {
        RangeNegotiation::Partial(w) => {
            assert_eq!((w.start, w.count), (0, 1));
        }
        _ => panic!("expected a window"),
    }
}

#[test]
fn decimal_rendering() {
    assert_eq!(u64_to_dec(0), "0");
    assert_eq!(u64_to_dec(12345), "12345");
    assert_eq!(u64_to_dec(u64::MAX), "18446744073709551615");
    assert_eq!(u64_to_dec_pad(7, 2), "07");
    assert_eq!(u64_to_dec_pad(123, 2), "123");
    assert_eq!(u64_to_dec_pad(0, 4), "0000");
}
