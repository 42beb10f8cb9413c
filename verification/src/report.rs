use vstd::prelude::*;

use crate::{Header, headers_view};
use crate::strutil::str_eq;

verus! {

/// The error kinds the property-report logic can signal: every malformed
/// body — unparsable XML, a wrong root element, a missing property
/// selector — collapses to one XML-parse error.
#[derive(PartialEq, Eq, Structural, Clone, Copy, Debug)]
pub enum DavError {
    XmlParse,
}

/// The WebDAV `Depth` request header.
#[derive(PartialEq, Eq, Structural, Clone, Copy, Debug)]
pub enum Depth {
    Zero,
    One,
    Infinity,
}

/// A property name inside the `prop` selector of a report body.
pub struct XmlLeaf {
    pub name: String,
    pub namespace: Option<String>,
}

/// A child element of the report body's root: its name, namespace, the
/// concatenated text it holds, and its own child elements.
pub struct XmlChild {
    pub name: String,
    pub namespace: Option<String>,
    pub text: String,
    pub kids: Vec<XmlLeaf>,
}

/// The root element of a report body, with its child elements.
pub struct XmlRoot {
    pub name: String,
    pub namespace: Option<String>,
    pub children: Vec<XmlChild>,
}

/// Mathematical image of a property name.
pub struct XmlLeafV {
    pub name: Seq<char>,
    pub namespace: Option<Seq<char>>,
}

/// Mathematical image of a root child.
pub struct XmlChildV {
    pub name: Seq<char>,
    pub namespace: Option<Seq<char>>,
    pub text: Seq<char>,
    pub kids: Seq<XmlLeafV>,
}

/// Mathematical image of a parsed report body.
pub struct XmlRootV {
    pub name: Seq<char>,
    pub namespace: Option<Seq<char>>,
    pub children: Seq<XmlChildV>,
}

/// The view of an optional string.
pub open spec fn opt_str_view(o: Option<String>) -> Option<Seq<char>> {
    match o {
        Some(s) => Some(s@),
        None => None,
    }
}

/// The view of a property name.
pub open spec fn leaf_view(l: XmlLeaf) -> XmlLeafV {
    XmlLeafV { name: l.name@, namespace: opt_str_view(l.namespace) }
}

/// The view of a list of property names.
pub open spec fn leaves_view(s: Seq<XmlLeaf>) -> Seq<XmlLeafV> {
    s.map_values(|l: XmlLeaf| leaf_view(l))
}

/// The view of a root child.
pub open spec fn child_view(c: XmlChild) -> XmlChildV {
    XmlChildV {
        name: c.name@,
        namespace: opt_str_view(c.namespace),
        text: c.text@,
        kids: leaves_view(c.kids@),
    }
}

/// The view of the root's children.
pub open spec fn children_view(s: Seq<XmlChild>) -> Seq<XmlChildV> {
    s.map_values(|c: XmlChild| child_view(c))
}

/// The view of a parsed report body.
pub open spec fn root_view(r: XmlRoot) -> XmlRootV {
    XmlRootV { name: r.name@, namespace: opt_str_view(r.namespace), children: children_view(r.children@) }
}

/// The view of an optional parsed report body.
pub open spec fn opt_root_view(o: Option<XmlRoot>) -> Option<XmlRootV> {
    match o {
        Some(r) => Some(root_view(r)),
        None => None,
    }
}

/// What parsing a report body yields: the root element with its first
/// two levels of children, or nothing for a document that does not
/// parse. A function of the bytes alone.
pub uninterp spec fn xml_doc_of(data: Seq<u8>) -> Option<XmlRootV>;

/// Relies on xmltree::Element::parse: it reads one XML document from
/// the bytes and errs on anything malformed; Element::get_text gathers
/// the concatenated text and cdata of an element's direct children.
/// Only element children are kept, in document order; an element
/// without text is carried as empty text.
#[verifier::external_body]
fn parse_xml_doc(data: &Vec<u8>) -> (r: Option<XmlRoot>)
    ensures
        opt_root_view(r) == xml_doc_of(data@),
{
    let root = xmltree::Element::parse(data.as_slice()).ok()?;
    let children = root.children.iter().filter_map(|n| match n {
        xmltree::XMLNode::Element(c) => Some(XmlChild {
            name: c.name.clone(),
            namespace: c.namespace.clone(),
            text: c.get_text().map(|t| t.into_owned()).unwrap_or_default(),
            kids: c.children.iter().filter_map(|k| match k {
                xmltree::XMLNode::Element(g) => Some(XmlLeaf { name: g.name.clone(), namespace: g.namespace.clone() }),
                _ => None,
            }).collect(),
        }),
        _ => None,
    }).collect();
    Some(XmlRoot { name: root.name, namespace: root.namespace, children })
}

/// Whether properties were asked for by name or all of them at once.
#[derive(PartialEq, Eq, Structural, Clone, Copy, Debug)]
pub enum PropMode {
    AllProp,
    Prop,
}

/// A decoded report request: the property mode, the requested property
/// names (empty for all-properties mode), and the target resources in
/// the order the body lists them.
pub struct ReportRequest {
    pub mode: PropMode,
    pub props: Vec<XmlLeaf>,
    pub hrefs: Vec<String>,
}

/// Mathematical image of a decoded report request.
pub struct ReportRequestV {
    pub mode: PropMode,
    pub props: Seq<XmlLeafV>,
    pub hrefs: Seq<Seq<char>>,
}

/// The view of a list of strings.
pub open spec fn strs_view(s: Seq<String>) -> Seq<Seq<char>> {
    s.map_values(|h: String| h@)
}

/// The view of a decoded report request.
pub open spec fn request_view(r: ReportRequest) -> ReportRequestV {
    ReportRequestV {
        mode: r.mode,
        props: leaves_view(r.props@),
        hrefs: strs_view(r.hrefs@),
    }
}

/// The first child element named `prop`, if any.
pub open spec fn spec_find_prop(cs: Seq<XmlChildV>) -> Option<XmlChildV>
    decreases cs.len(),
{
    if cs.len() == 0 {
        None
    } else if cs[0].name == "prop"@ {
        Some(cs[0])
    } else {
        spec_find_prop(cs.drop_first())
    }
}

/// The text of every child element named `href`, in document order.
pub open spec fn spec_hrefs(cs: Seq<XmlChildV>) -> Seq<Seq<char>>
    decreases cs.len(),
{
    if cs.len() == 0 {
        Seq::empty()
    } else if cs.last().name == "href"@ {
        spec_hrefs(cs.drop_last()).push(cs.last().text)
    } else {
        spec_hrefs(cs.drop_last())
    }
}

/// How a report body is understood. No body at all is an all-properties
/// request with no targets. A body must hold an `addressbook-multiget`
/// root in the CardDAV namespace and a `prop` child, whose children are
/// the requested property names; anything else is an XML-parse error.
/// In particular a multiget root without a `prop` child is refused
/// rather than read as an all-properties request: only an absent body
/// selects that mode. The targets are the root's `href` children, in
/// order.
pub open spec fn spec_interpret(root: Option<XmlRootV>) -> Result<ReportRequestV, DavError> {
    match root {
        None => Ok(
            ReportRequestV { mode: PropMode::AllProp, props: Seq::empty(), hrefs: Seq::empty() },
        ),
        Some(r) => {
            if !(r.name == "addressbook-multiget"@ && r.namespace == Some(
                "urn:ietf:params:xml:ns:carddav"@,
            )) {
                Err(DavError::XmlParse)
            } else {
                match spec_find_prop(r.children) {
                    None => Err(DavError::XmlParse),
                    Some(p) => Ok(
                        ReportRequestV {
                            mode: PropMode::Prop,
                            props: p.kids,
                            hrefs: spec_hrefs(r.children),
                        },
                    ),
                }
            }
        },
    }
}

/// How a whole body — possibly empty, possibly unparsable — is
/// understood: an empty body is "all properties, no targets"; a
/// non-empty body that does not parse is an XML-parse error; a parsed
/// body is read as `spec_interpret` says.
pub open spec fn spec_report_request(data: Seq<u8>) -> Result<ReportRequestV, DavError> {
    if data.len() == 0 {
        spec_interpret(None)
    } else {
        match xml_doc_of(data) {
            None => Err(DavError::XmlParse),
            Some(r) => spec_interpret(Some(r)),
        }
    }
}

/// Decode a parsed report body.
pub fn interpret_report_body(root: Option<XmlRoot>) -> (out: Result<ReportRequest, DavError>)
    ensures
        match out {
            Ok(req) => spec_interpret(opt_root_view(root)) == Ok::<ReportRequestV, DavError>(
                request_view(req),
            ),
            Err(e) => spec_interpret(opt_root_view(root)) == Err::<ReportRequestV, DavError>(e),
        },
{
    let r = match root {
        None => {
            let out = ReportRequest { mode: PropMode::AllProp, props: Vec::new(), hrefs: Vec::new() };
            proof {
                assert(leaves_view(out.props@) =~= Seq::<XmlLeafV>::empty());
                assert(strs_view(out.hrefs@) =~= Seq::<Seq<char>>::empty());
            }
            return Ok(out);
        },
        Some(r) => r,
    };
    let ns_ok = match &r.namespace {
        Some(ns) => str_eq(ns.as_str(), "urn:ietf:params:xml:ns:carddav"),
        None => false,
    };
    if !(str_eq(r.name.as_str(), "addressbook-multiget") && ns_ok) {
        return Err(DavError::XmlParse);
    }
    let ghost cs = children_view(r.children@);
    let mut children = r.children;
    let mut props: Option<Vec<XmlLeaf>> = None;
    let mut hrefs: Vec<String> = Vec::new();
    let ghost mut i: int = 0;
    let ghost n = cs.len();
    proof {
        assert(cs.take(0) =~= Seq::<XmlChildV>::empty());
        assert(cs.skip(0) =~= cs);
        assert(strs_view(hrefs@) =~= spec_hrefs(cs.take(0)));
    }
    while children.len() > 0
        invariant
            0 <= i <= n,
            n == cs.len(),
            children_view(children@) == cs.skip(i),
            i + children@.len() == n,
            strs_view(hrefs@) == spec_hrefs(cs.take(i)),
            match props {
                Some(p) => (spec_find_prop(cs.take(i)) matches Some(pv) && leaves_view(p@)
                    == pv.kids),
                None => spec_find_prop(cs.take(i)) is None,
            },
            spec_find_prop(cs) == if spec_find_prop(cs.take(i)) is Some {
                spec_find_prop(cs.take(i))
            } else {
                spec_find_prop(cs.skip(i))
            },
        decreases children@.len(),
    {
        let ghost pre = cs.take(i);
        let ghost kids0 = children@;
        let c = children.remove(0);
        proof {
            assert(c == kids0[0]);
            assert(child_view(c) == children_view(kids0)[0]);
            assert(child_view(c) == cs[i]);
            assert forall|k: int| 0 <= k < children@.len() implies children_view(children@)[k]
                == cs.skip(i + 1)[k] by {
                assert(children@[k] == kids0[k + 1]);
                assert(children_view(children@)[k] == child_view(children@[k]));
                assert(children_view(kids0)[k + 1] == child_view(kids0[k + 1]));
            }
            assert(children_view(children@) =~= cs.skip(i + 1));
            assert(cs.take(i + 1).drop_last() =~= pre);
            assert(cs.take(i + 1).last() == cs[i]);
            assert(cs.skip(i).drop_first() =~= cs.skip(i + 1));
            assert(cs.skip(i)[0] == cs[i]);
            lemma_find_prop_take_step(cs, i);
        }
        let XmlChild { name, namespace: _, text, kids } = c;
        let is_prop = str_eq(name.as_str(), "prop");
        let is_href = str_eq(name.as_str(), "href");
        if is_href {
            let ghost hrefs0 = hrefs@;
            hrefs.push(text);
            proof {
                assert(strs_view(hrefs@) =~= strs_view(hrefs0).push(text@));
            }
        }
        if is_prop && props.is_none() {
            props = Some(kids);
        }
        proof {
            i = i + 1;
        }
    }
    proof {
        assert(cs.take(n as int) =~= cs);
        assert(cs.skip(n as int) =~= Seq::<XmlChildV>::empty());
    }
    match props {
        Some(p) => Ok(ReportRequest { mode: PropMode::Prop, props: p, hrefs }),
        None => Err(DavError::XmlParse),
    }
}

/// Stepping a prefix of the child list across one element keeps the
/// first `prop` already found, or finds it at the new element, or keeps
/// looking in the remainder.
proof fn lemma_find_prop_take_step(cs: Seq<XmlChildV>, i: int)
    requires
        0 <= i < cs.len(),
    ensures
        spec_find_prop(cs.take(i + 1)) == if spec_find_prop(cs.take(i)) is Some {
            spec_find_prop(cs.take(i))
        } else if cs[i].name == "prop"@ {
            Some(cs[i])
        } else {
            None
        },
    decreases i,
{
    if i == 0 {
        assert(cs.take(0) =~= Seq::<XmlChildV>::empty());
        assert(cs.take(1)[0] == cs[0]);
        if cs[0].name == "prop"@ {
        } else {
            assert(cs.take(1).drop_first() =~= Seq::<XmlChildV>::empty());
        }
    } else {
        lemma_find_prop_take_step(cs.drop_first(), i - 1);
        assert(cs.take(i + 1).drop_first() =~= cs.drop_first().take(i));
        assert(cs.take(i).drop_first() =~= cs.drop_first().take(i - 1));
        assert(cs.drop_first()[i - 1] == cs[i]);
    }
}

/// Parse and decode a report body. An empty body is an all-properties
/// request with no targets; a non-empty body must be a well-formed
/// `addressbook-multiget` document.
pub fn read_report_request(data: &Vec<u8>) -> (out: Result<ReportRequest, DavError>)
    ensures
        match out {
            Ok(req) => spec_report_request(data@) == Ok::<ReportRequestV, DavError>(
                request_view(req),
            ),
            Err(e) => spec_report_request(data@) == Err::<ReportRequestV, DavError>(e),
        },
{
    if data.len() == 0 {
        interpret_report_body(None)
    } else {
        match parse_xml_doc(data) {
            None => Err(DavError::XmlParse),
            Some(root) => interpret_report_body(Some(root)),
        }
    }
}

/// How a `Depth` header value reads: `0`, `1` or `infinity`, anything
/// else (like an absent header) counting as no usable depth.
pub open spec fn spec_parse_depth(value: Option<Seq<char>>) -> Option<Depth> {
    match value {
        None => None,
        Some(v) => if v == "0"@ {
            Some(Depth::Zero)
        } else if v == "1"@ {
            Some(Depth::One)
        } else if v == "infinity"@ {
            Some(Depth::Infinity)
        } else {
            None
        },
    }
}

/// The view of an optional string slice.
pub open spec fn opt_value_view(value: Option<&str>) -> Option<Seq<char>> {
    match value {
        Some(v) => Some(v@),
        None => None,
    }
}

/// Parse a `Depth` request header value.
pub fn parse_depth(value: Option<&str>) -> (d: Option<Depth>)
    ensures
        d == spec_parse_depth(opt_value_view(value)),
{
    match value {
        None => None,
        Some(v) => {
            if str_eq(v, "0") {
                Some(Depth::Zero)
            } else if str_eq(v, "1") {
                Some(Depth::One)
            } else if str_eq(v, "infinity") {
                Some(Depth::Infinity)
            } else {
                None
            }
        },
    }
}

/// The fixed XML error envelope around one error element.
pub open spec fn spec_dav_xml_error(inner: Seq<char>) -> Seq<char> {
    "<?xml version=\"1.0\" encoding=\"utf-8\" ?>\n<D:error xmlns:D=\"DAV:\">\n"@ + inner
        + "\n</D:error>\n"@
}

/// Wrap one error element in the fixed XML error envelope.
pub fn dav_xml_error(inner: &str) -> (s: String)
    ensures
        s@ == spec_dav_xml_error(inner@),
{
    let mut s = String::from_str(
        "<?xml version=\"1.0\" encoding=\"utf-8\" ?>\n<D:error xmlns:D=\"DAV:\">\n",
    );
    s.append(inner);
    s.append("\n</D:error>\n");
    proof {
        assert(s@ =~= spec_dav_xml_error(inner@));
    }
    s
}

/// Depth-infinity (or depth-less) property reports are forbidden by
/// policy, unless the test-harness escape header is present.
pub open spec fn spec_depth_forbidden(depth: Option<Depth>, litmus: bool) -> bool {
    (depth is None || depth == Some(Depth::Infinity)) && !litmus
}

/// How a report request starts out before any body is read.
pub enum ReportPreamble {
    /// Status 403 with the fixed finite-depth error body, whatever the
    /// request body holds.
    Forbidden { status: u16, headers: Vec<Header>, body: String },
    /// Go on with this effective depth.
    Proceed { depth: Depth, headers: Vec<Header> },
}

/// The two cache-defeating headers every report response carries.
pub open spec fn spec_report_base_headers() -> Seq<(Seq<char>, Seq<char>)> {
    seq![("Cache-Control"@, "no-cache"@), ("Pragma"@, "no-cache"@)]
}

/// Start a report response: set the cache-defeating headers, and apply
/// the depth policy. A missing or `infinity` depth without the escape
/// header is answered 403 with the fixed finite-depth error body —
/// whatever the request body holds, since the body is not even looked
/// at here. With the escape header such a request proceeds at infinite
/// depth.
pub fn report_preamble(depth: Option<Depth>, litmus: bool) -> (r: ReportPreamble)
    ensures
        spec_depth_forbidden(depth, litmus) ==> (r matches ReportPreamble::Forbidden {
            status,
            headers,
            body,
        } && status == 403 && headers_view(headers@) =~~= spec_report_base_headers() + seq![
            ("Content-Type"@, "application/xml; charset=utf-8"@),
        ] && body@ == spec_dav_xml_error("<D:propfind-finite-depth/>"@)),
        !spec_depth_forbidden(depth, litmus) ==> (r matches ReportPreamble::Proceed {
            depth: d,
            headers,
        } && headers_view(headers@) =~~= spec_report_base_headers() && d == (match depth {
            Some(given) => given,
            None => Depth::Infinity,
        })),
{
    let mut headers: Vec<Header> = Vec::new();
    headers.push((String::from_str("Cache-Control"), String::from_str("no-cache")));
    headers.push((String::from_str("Pragma"), String::from_str("no-cache")));
    let forbidden = match depth {
        None => !litmus,
        Some(Depth::Infinity) => !litmus,
        Some(_) => false,
    };
    if forbidden {
        headers.push(
            (String::from_str("Content-Type"), String::from_str("application/xml; charset=utf-8")),
        );
        let body = dav_xml_error("<D:propfind-finite-depth/>");
        ReportPreamble::Forbidden { status: 403, headers, body }
    } else {
        let d = match depth {
            Some(given) => given,
            None => Depth::Infinity,
        };
        ReportPreamble::Proceed { depth: d, headers }
    }
}

/// One step of a proceeding report: write the properties of the
/// resource an href names (resolving the href, rewriting it through the
/// filesystem's hook, and fetching its metadata first, then flushing),
/// or close the response envelope.
pub enum ReportAction {
    WriteProps(String),
    Close,
}

/// Mathematical image of one report step.
pub enum ReportActionV {
    WriteProps(Seq<char>),
    Close,
}

/// The view of one report step.
pub open spec fn action_view(a: ReportAction) -> ReportActionV {
    match a {
        ReportAction::WriteProps(h) => ReportActionV::WriteProps(h@),
        ReportAction::Close => ReportActionV::Close,
    }
}

/// The view of a report script.
pub open spec fn actions_view(s: Seq<ReportAction>) -> Seq<ReportActionV> {
    s.map_values(|a: ReportAction| action_view(a))
}

/// One property write per target, in order.
pub open spec fn writes_of(hrefs: Seq<Seq<char>>) -> Seq<ReportActionV> {
    hrefs.map_values(|h: Seq<char>| ReportActionV::WriteProps(h))
}

/// The steps a proceeding report performs: at depth zero nothing is
/// written; otherwise one write per target href, in exactly the order
/// the body listed them; and the envelope is closed after the last
/// write, never before.
pub open spec fn spec_report_script(depth: Depth, hrefs: Seq<Seq<char>>) -> Seq<ReportActionV> {
    let writes = if depth == Depth::Zero {
        Seq::<ReportActionV>::empty()
    } else {
        writes_of(hrefs)
    };
    writes.push(ReportActionV::Close)
}

/// Lay out the steps of a proceeding report over its decoded request.
pub fn report_script(depth: Depth, req: &ReportRequest) -> (script: Vec<ReportAction>)
    ensures
        actions_view(script@) == spec_report_script(depth, request_view(*req).hrefs),
{
    let mut script: Vec<ReportAction> = Vec::new();
    let ghost hs = strs_view(req.hrefs@);
    if !matches!(depth, Depth::Zero) {
        let mut i: usize = 0;
        proof {
            assert(hs.take(0) =~= Seq::<Seq<char>>::empty());
            assert(actions_view(script@) =~= writes_of(hs.take(0)));
        }
        while i < req.hrefs.len()
            invariant
                hs == strs_view(req.hrefs@),
                i <= req.hrefs@.len(),
                actions_view(script@) == writes_of(hs.take(i as int)),
            decreases req.hrefs@.len() - i,
        {
            let ghost script0 = script@;
            let h = req.hrefs[i].clone();
            proof {
                assert(h@ == req.hrefs@[i as int]@);
            }
            script.push(ReportAction::WriteProps(h));
            i = i + 1;
            proof {
                assert(script0.len() == writes_of(hs.take(i - 1)).len());
                assert(hs.take(i - 1).len() == i - 1);
                assert(hs.take(i as int).len() == i);
                assert(script@.len() == i);
                assert forall|k: int| 0 <= k < script@.len() implies actions_view(script@)[k]
                    == writes_of(hs.take(i as int))[k] by {
                    assert(actions_view(script@)[k] == action_view(script@[k]));
                    assert(writes_of(hs.take(i as int))[k] == ReportActionV::WriteProps(
                        hs.take(i as int)[k],
                    ));
                    assert(hs.take(i as int)[k] == hs[k]);
                    assert(hs[k] == req.hrefs@[k]@);
                    if k < i - 1 {
                        assert(script@[k] == script0[k]);
                        assert(actions_view(script0)[k] == action_view(script0[k]));
                        assert(actions_view(script0)[k] == writes_of(hs.take(i - 1))[k]);
                        assert(writes_of(hs.take(i - 1))[k] == ReportActionV::WriteProps(
                            hs.take(i - 1)[k],
                        ));
                    } else {
                        assert(action_view(script@[k]) == ReportActionV::WriteProps(h@));
                    }
                }
                assert(actions_view(script@) =~= writes_of(hs.take(i as int)));
            }
        }
    }
    script.push(ReportAction::Close);
    proof {
        assert(hs.take(req.hrefs@.len() as int) =~= hs);
        assert(actions_view(script@) =~= spec_report_script(depth, request_view(*req).hrefs));
    }
    script
}

/// An empty report body at depth zero yields the minimal response: an
/// all-properties request with no targets, whose only step is closing
/// the envelope.
pub proof fn lemma_empty_report_minimal()
    ensures
        spec_report_request(Seq::empty()) == Ok::<ReportRequestV, DavError>(
            ReportRequestV { mode: PropMode::AllProp, props: Seq::empty(), hrefs: Seq::empty() },
        ),
        spec_report_script(Depth::Zero, Seq::empty()) =~= seq![ReportActionV::Close],
{
}

/// A proceeding report with targets writes exactly those targets, in
/// the listed order, and closes the envelope right after the last one.
pub proof fn lemma_report_targets_in_order(depth: Depth, hrefs: Seq<Seq<char>>)
    requires
        depth != Depth::Zero,
    ensures
        spec_report_script(depth, hrefs).len() == hrefs.len() + 1,
        forall|k: int|
            0 <= k < hrefs.len() ==> spec_report_script(depth, hrefs)[k]
                == ReportActionV::WriteProps(hrefs[k]),
        spec_report_script(depth, hrefs).last() == ReportActionV::Close,
{
}

} // verus!
