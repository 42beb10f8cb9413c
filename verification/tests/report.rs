use davcore::report::{
    dav_xml_error, parse_depth, read_report_request, report_preamble, report_script, DavError,
    Depth, PropMode, ReportAction, ReportPreamble,
};

fn multiget_body() -> Vec<u8> {
    "<B:addressbook-multiget xmlns:B=\"urn:ietf:params:xml:ns:carddav\" xmlns:D=\"DAV:\"><B:prop><D:getetag/><B:address-data/></B:prop><D:href>/addr/a.vcf</D:href><D:href>/addr/b.vcf</D:href></B:addressbook-multiget>"
        .as_bytes()
        .to_vec()
}

#[test]
fn depth_header_values() {
    assert_eq!(parse_depth(Some("0")), Some(Depth::Zero));
    assert_eq!(parse_depth(Some("1")), Some(Depth::One));
    assert_eq!(parse_depth(Some("infinity")), Some(Depth::Infinity));
    assert_eq!(parse_depth(Some("2")), None);
    assert_eq!(parse_depth(None), None);
}

#[test]
fn infinite_depth_is_forbidden() {
    for depth in [None, Some(Depth::Infinity)] {
        match report_preamble(depth, false) {
            ReportPreamble::Forbidden { status, headers, body } => {
                assert_eq!(status, 403);
                assert_eq!(headers[0], (String::from("Cache-Control"), String::from("no-cache")));
                assert_eq!(headers[1], (String::from("Pragma"), String::from("no-cache")));
                assert_eq!(
                    headers[2],
                    (String::from("Content-Type"), String::from("application/xml; charset=utf-8"))
                );
                assert!(body.contains("<D:propfind-finite-depth/>"));
                assert_eq!(body, dav_xml_error("<D:propfind-finite-depth/>"));
            }
            _ => panic!("expected the forbidden response"),
        }
    }
}

#[test]
fn litmus_header_escapes_depth_policy() {
    match report_preamble(None, true) {
        ReportPreamble::Proceed { depth, headers } => {
            assert_eq!(depth, Depth::Infinity);
            assert_eq!(headers.len(), 2);
        }
        _ => panic!("expected to proceed"),
    }
}

#[test]
fn depth_zero_proceeds() {
    match report_preamble(Some(Depth::Zero), false) {
        ReportPreamble::Proceed { depth, .. } => assert_eq!(depth, Depth::Zero),
        _ => panic!("expected to proceed"),
    }
}

#[test]
fn error_envelope_is_fixed() {
    assert_eq!(
        dav_xml_error("<D:x/>"),
        "<?xml version=\"1.0\" encoding=\"utf-8\" ?>\n<D:error xmlns:D=\"DAV:\">\n<D:x/>\n</D:error>\n"
    );
}

#[test]
fn empty_body_is_allprop_with_no_targets() {
    let req = read_report_request(&Vec::new()).expect("an empty body is fine");
    assert_eq!(req.mode, PropMode::AllProp);
    assert!(req.props.is_empty());
    assert!(req.hrefs.is_empty());
    let script = report_script(Depth::Zero, &req);
    assert_eq!(script.len(), 1);
    assert!(matches!(script[0], ReportAction::Close));
}

#[test]
fn multiget_body_resolves_both_hrefs_in_order() {
    let req = read_report_request(&multiget_body()).expect("should parse");
    assert_eq!(req.mode, PropMode::Prop);
    let prop_names: Vec<&str> = req.props.iter().map(|p| p.name.as_str()).collect();
    assert_eq!(prop_names, vec!["getetag", "address-data"]);
    assert_eq!(req.hrefs, vec!["/addr/a.vcf", "/addr/b.vcf"]);
    let script = report_script(Depth::One, &req);
    assert_eq!(script.len(), 3);
    match (&script[0], &script[1], &script[2]) {
        (ReportAction::WriteProps(a), ReportAction::WriteProps(b), ReportAction::Close) => {
            assert_eq!(a, "/addr/a.vcf");
            assert_eq!(b, "/addr/b.vcf");
        }
        _ => panic!("expected two writes and a close, in that order"),
    }
}

#[test]
fn depth_zero_writes_no_targets() {
    let req = read_report_request(&multiget_body()).expect("should parse");
    let script = report_script(Depth::Zero, &req);
    assert_eq!(script.len(), 1);
    assert!(matches!(script[0], ReportAction::Close));
}

#[test]
fn wrong_root_is_an_xml_error() {
    let body = b"<propfind xmlns=\"DAV:\"><prop/></propfind>".to_vec();
    assert!(matches!(read_report_request(&body), Err(DavError::XmlParse)));
}

#[test]
fn wrong_namespace_is_an_xml_error() {
    let body = b"<addressbook-multiget xmlns=\"DAV:\"><prop/></addressbook-multiget>".to_vec();
    assert!(matches!(read_report_request(&body), Err(DavError::XmlParse)));
}

#[test]
fn missing_prop_is_an_xml_error() {
    let body =
        "<B:addressbook-multiget xmlns:B=\"urn:ietf:params:xml:ns:carddav\"><B:href>/a</B:href></B:addressbook-multiget>"
            .as_bytes()
            .to_vec();
    assert!(matches!(read_report_request(&body), Err(DavError::XmlParse)));
}

#[test]
fn garbage_is_an_xml_error() {
    let body = b"this is not xml".to_vec();
    assert!(matches!(read_report_request(&body), Err(DavError::XmlParse)));
}
