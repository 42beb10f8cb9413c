use vstd::prelude::*;
use vstd::multiset::Multiset;
use vstd::seq_lib::group_to_multiset_ensures;

use crate::{Header, headers_view};
use crate::escape::{escape_html, escaped};
use crate::numfmt::{spec_dec, u64_to_dec};
use crate::strutil::{lemma_lex_le_total, lemma_lex_le_trans, lex_le, str_le};
use crate::timefmt::{DateFields, format_stamp, local_date_fields, spec_stamp};

verus! {

/// What the filesystem reports for one directory child.
#[derive(Clone, Copy)]
pub struct EntryMeta {
    pub is_dir: bool,
    pub is_file: bool,
    pub size: u64,
    /// Modification time in seconds since the Unix epoch, where the
    /// filesystem supports one.
    pub modified: Option<i64>,
}

/// One enumerated directory child, before it is turned into a listing
/// row: its raw name and its resolved metadata, `None` where the
/// metadata lookup failed (such an entry is skipped, not an error).
pub struct RawDirEntry {
    pub name: String,
    pub meta: Option<EntryMeta>,
}

/// One row of the directory listing.
pub struct Dirent {
    /// Link target: the collection's URL followed by the entry name,
    /// with a trailing slash for directories.
    pub href: String,
    /// Display name, with a trailing slash for directories.
    pub name: String,
    pub is_dir: bool,
    pub is_file: bool,
    pub size: u64,
    /// Local calendar fields of the modification time, where known.
    pub stamp: Option<DateFields>,
}

/// Entries whose name begins with the hidden-file marker are excluded
/// from listings.
pub open spec fn hidden(name: Seq<char>) -> bool {
    name.len() > 0 && name[0] == '.'
}

/// The raw entries that make it into the listing: metadata resolved and
/// not hidden.
pub open spec fn spec_kept(raw: Seq<RawDirEntry>) -> Seq<RawDirEntry> {
    raw.filter(|r: RawDirEntry| r.meta is Some && !hidden(r.name@))
}

/// How a listing row relates to the raw entry it was built from: a
/// trailing slash on name and link for directories, the metadata fields
/// copied, and a well-formed stamp only where a modification time was
/// reported (its exact fields depend on the machine's time zone, so only
/// their ranges are promised).
pub open spec fn entry_matches(d: Dirent, base: Seq<char>, r: RawDirEntry) -> bool {
    match r.meta {
        Some(m) => {
            let shown = if m.is_dir {
                r.name@ + seq!['/']
            } else {
                r.name@
            };
            &&& d.name@ == shown
            &&& d.href@ == base + shown
            &&& d.is_dir == m.is_dir
            &&& d.is_file == m.is_file
            &&& d.size == m.size
            &&& (m.modified is None ==> d.stamp is None)
            &&& (d.stamp matches Some(f) ==> f.wf())
        },
        None => false,
    }
}

/// Whether the name begins with the hidden-file marker.
pub fn is_hidden(name: &str) -> (r: bool)
    ensures
        r == hidden(name@),
{
    name.unicode_len() > 0 && name.get_char(0) == '.'
}

/// Turn the enumerated children of the collection at `base` (a URL that
/// ends in a slash) into listing rows: hidden entries and entries whose
/// metadata could not be resolved are skipped, directories get a
/// trailing slash on name and link, and each known modification time is
/// broken down into local calendar fields.
pub fn build_dirents(base: &str, raw: &Vec<RawDirEntry>) -> (r: Vec<Dirent>)
    ensures
        r@.len() == spec_kept(raw@).len(),
        forall|i: int|
            0 <= i < r@.len() ==> #[trigger] entry_matches(r@[i], base@, spec_kept(raw@)[i]),
{
    let mut r: Vec<Dirent> = Vec::new();
    let mut i: usize = 0;
    proof {
        assert(raw@.take(0) =~= Seq::<RawDirEntry>::empty());
        reveal(Seq::filter);
    }
    while i < raw.len()
        invariant
            i <= raw@.len(),
            r@.len() == spec_kept(raw@.take(i as int)).len(),
            forall|k: int|
                0 <= k < r@.len() ==> #[trigger] entry_matches(
                    r@[k],
                    base@,
                    spec_kept(raw@.take(i as int))[k],
                ),
        decreases raw@.len() - i,
    {
        let ghost prefix = raw@.take(i as int);
        let entry = &raw[i];
        proof {
            assert(raw@.take(i + 1).drop_last() =~= prefix);
            assert(raw@.take(i + 1).last() == raw@[i as int]);
            reveal(Seq::filter);
        }
        match &entry.meta {
            Some(m) => {
                if !is_hidden(entry.name.as_str()) {
                    let mut name = entry.name.clone();
                    let mut href = String::from_str(base);
                    href.append(name.as_str());
                    if m.is_dir {
                        proof {
                            reveal_strlit("/");
                        }
                        name.append("/");
                        href.append("/");
                    }
                    let stamp = match m.modified {
                        Some(ts) => local_date_fields(ts),
                        None => None,
                    };
                    let d = Dirent {
                        href,
                        name,
                        is_dir: m.is_dir,
                        is_file: m.is_file,
                        size: m.size,
                        stamp,
                    };
                    proof {
                        if m.is_dir {
                            assert(d.name@ =~= entry.name@ + seq!['/']);
                            assert(d.href@ =~= base@ + (entry.name@ + seq!['/']));
                        } else {
                            assert(d.href@ =~= base@ + entry.name@);
                        }
                        assert(entry_matches(d, base@, raw@[i as int]));
                        assert(spec_kept(raw@.take(i + 1)) =~= spec_kept(prefix).push(
                            raw@[i as int],
                        ));
                    }
                    r.push(d);
                } else {
                    proof {
                        assert(spec_kept(raw@.take(i + 1)) =~= spec_kept(prefix));
                    }
                }
            },
            None => {
                proof {
                    assert(spec_kept(raw@.take(i + 1)) =~= spec_kept(prefix));
                }
            },
        }
        i = i + 1;
    }
    proof {
        assert(raw@.take(raw@.len() as int) =~= raw@);
    }
    r
}

/// The listing order: directories before everything else, and within
/// each group lexicographic (codepoint) order on the display name.
pub open spec fn dirent_le(a: Dirent, b: Dirent) -> bool {
    if a.is_dir != b.is_dir {
        a.is_dir
    } else {
        lex_le(a.name@, b.name@)
    }
}

/// Any two rows compare one way or the other.
pub proof fn lemma_dirent_le_total(a: Dirent, b: Dirent)
    ensures
        dirent_le(a, b) || dirent_le(b, a),
{
    lemma_lex_le_total(a.name@, b.name@);
}

/// The listing order is transitive.
pub proof fn lemma_dirent_le_trans(a: Dirent, b: Dirent, c: Dirent)
    requires
        dirent_le(a, b),
        dirent_le(b, c),
    ensures
        dirent_le(a, c),
{
    if a.is_dir == b.is_dir && b.is_dir == c.is_dir {
        lemma_lex_le_trans(a.name@, b.name@, c.name@);
    }
}

/// The sequence is sorted for the listing order.
pub open spec fn dirents_sorted(s: Seq<Dirent>) -> bool {
    forall|i: int, j: int| 0 <= i < j < s.len() ==> #[trigger] dirent_le(s[i], s[j])
}

/// Whether `a` comes at or before `b` in the listing order.
fn dirent_le_exec(a: &Dirent, b: &Dirent) -> (r: bool)
    ensures
        r == dirent_le(*a, *b),
{
    if a.is_dir != b.is_dir {
        a.is_dir
    } else {
        str_le(a.name.as_str(), b.name.as_str())
    }
}

/// Sort listing rows: all directories first, each group alphabetical by
/// display name. The result holds exactly the given rows.
pub fn sort_dirents(v: Vec<Dirent>) -> (r: Vec<Dirent>)
    ensures
        dirents_sorted(r@),
        r@.to_multiset() == v@.to_multiset(),
{
    broadcast use group_to_multiset_ensures;
    broadcast use vstd::multiset::group_multiset_axioms;

    let mut rest = v;
    let mut out: Vec<Dirent> = Vec::new();
    while rest.len() > 0
        invariant
            dirents_sorted(out@),
            out@.to_multiset().add(rest@.to_multiset()) == v@.to_multiset(),
        decreases rest@.len(),
    {
        let ghost rest0 = rest@;
        let x = rest.remove(0);
        let mut pos: usize = 0;
        while pos < out.len() && dirent_le_exec(&out[pos], &x)
            invariant
                pos <= out@.len(),
                forall|a: int| 0 <= a < pos ==> #[trigger] dirent_le(out@[a], x),
            decreases out@.len() - pos,
        {
            pos = pos + 1;
        }
        proof {
            broadcast use group_to_multiset_ensures;
            broadcast use vstd::multiset::group_multiset_axioms;

            if pos < out@.len() {
                lemma_dirent_le_total(out@[pos as int], x);
            }
            let s = out@;
            let s2 = s.insert(pos as int, x);
            assert forall|a: int, b: int| 0 <= a < b < s2.len() implies #[trigger] dirent_le(
                s2[a],
                s2[b],
            ) by {
                if b < pos {
                    assert(s2[a] == s[a] && s2[b] == s[b]);
                } else if b == pos {
                    assert(s2[a] == s[a] && s2[b] == x);
                } else if a == pos {
                    assert(s2[b] == s[b - 1]);
                    if b - 1 > pos {
                        lemma_dirent_le_trans(x, s[pos as int], s[b - 1]);
                    }
                } else if a < pos {
                    assert(s2[a] == s[a] && s2[b] == s[b - 1]);
                } else {
                    assert(s2[a] == s[a - 1] && s2[b] == s[b - 1]);
                }
            }
            assert(rest0[0] == x);
            assert(rest0.contains(x));
            assert(rest0.to_multiset().count(x) > 0);
            assert(rest@ =~= rest0.remove(0));
            assert(rest@.to_multiset() =~= rest0.remove(0).to_multiset());
            assert(rest0.remove(0).to_multiset() =~= rest0.to_multiset().remove(x));
            assert(s2.to_multiset() =~= out@.to_multiset().insert(x));
            assert(s2.to_multiset().add(rest@.to_multiset()) =~= out@.to_multiset().add(
                rest0.to_multiset(),
            ));
        }
        out.insert(pos, x);
    }
    proof {
        broadcast use group_to_multiset_ensures;
        broadcast use vstd::multiset::group_multiset_axioms;

        assert(rest@ =~= Seq::<Dirent>::empty());
        assert(rest@.to_multiset() =~= Multiset::<Dirent>::empty());
        assert(out@.to_multiset().add(rest@.to_multiset()) =~= out@.to_multiset());
    }
    out
}

/// The size cell of a row: the byte length for plain files, a literal
/// directory marker for everything else.
pub open spec fn spec_size_cell(d: Dirent) -> Seq<char> {
    if d.is_file {
        spec_dec(d.size as nat)
    } else {
        "[DIR]"@
    }
}

/// The modification-time cell of a row: `YYYY-MM-DD HH:MM`, or empty
/// where the filesystem reported none.
pub open spec fn spec_stamp_cell(d: Dirent) -> Seq<char> {
    match d.stamp {
        Some(f) => spec_stamp(f),
        None => Seq::empty(),
    }
}

/// One table row: a link to the entry, the modification stamp, and the
/// size cell. Both the hyperlink and the link text are HTML-escaped, so
/// an entry name can inject markup nowhere — not even inside the href
/// attribute.
pub open spec fn spec_row(d: Dirent) -> Seq<char> {
    "<tr><td><a href=\""@ + escaped(d.href@) + "\">"@ + escaped(d.name@)
        + "</a></td><td class=\"mono\">"@ + spec_stamp_cell(d)
        + "</td><td class=\"mono\" align=\"right\">"@ + spec_size_cell(d) + "</td></tr>\n"@
}

/// The rows of the listing, in order.
pub open spec fn spec_rows(s: Seq<Dirent>) -> Seq<char>
    decreases s.len(),
{
    if s.len() == 0 {
        Seq::empty()
    } else {
        spec_rows(s.drop_last()) + spec_row(s.last())
    }
}

/// The whole index page: escaped path as title and heading, the fixed
/// style block, the table header and parent-directory row, one row per
/// entry, and the closing rule.
pub open spec fn spec_listing_page(path: Seq<char>, rows: Seq<Dirent>) -> Seq<char> {
    "<html><head>\n<title>Index of "@ + escaped(path)
        + "</title>\n<style>\ntable {\n  border-collapse: separate;\n  border-spacing: 1.5em 0.25em;\n}\nh1 {\n  padding-left: 0.3em;\n}\n.mono {\n  font-family: monospace;\n}\n</style>\n</head>\n<body>\n<h1>Index of "@
        + escaped(path)
        + "</h1>\n<table>\n<tr>\n<th>Name</th><th>Last modified</th><th>Size</th>\n<tr><th colspan=\"3\"><hr></th></tr>\n<tr><td><a href=\"..\">Parent Directory</a></td><td>&nbsp;</td><td class=\"mono\" align=\"right\">[DIR]</td></tr>\n"@
        + spec_rows(rows)
        + "<tr><th colspan=\"3\"><hr></th></tr>\n</table></body></html>\n"@
}

/// Every stamp carried by the rows is well formed; `build_dirents`
/// guarantees it, and the renderer needs it.
pub open spec fn stamps_wf(s: Seq<Dirent>) -> bool {
    forall|i: int|
        0 <= i < s.len() ==> (#[trigger] s[i].stamp matches Some(f) ==> f.wf())
}

/// Render one listing row.
fn render_row(d: &Dirent) -> (s: String)
    requires
        d.stamp matches Some(f) ==> f.wf(),
    ensures
        s@ == spec_row(*d),
{
    let mut s = String::from_str("<tr><td><a href=\"");
    let href = escape_html(d.href.as_str());
    s.append(href.as_str());
    s.append("\">");
    let esc = escape_html(d.name.as_str());
    s.append(esc.as_str());
    s.append("</a></td><td class=\"mono\">");
    match &d.stamp {
        Some(f) => {
            let stamp = format_stamp(f);
            s.append(stamp.as_str());
        },
        None => {},
    }
    s.append("</td><td class=\"mono\" align=\"right\">");
    if d.is_file {
        let size = u64_to_dec(d.size);
        s.append(size.as_str());
    } else {
        s.append("[DIR]");
    }
    s.append("</td></tr>\n");
    proof {
        assert(s@ =~= spec_row(*d));
    }
    s
}

/// Render the HTML index page of the collection at `path` over the
/// prepared (sorted) rows.
pub fn render_dirlist(path: &str, dirents: &Vec<Dirent>) -> (body: String)
    requires
        stamps_wf(dirents@),
    ensures
        body@ == spec_listing_page(path@, dirents@),
{
    let esc = escape_html(path);
    let mut s = String::from_str("<html><head>\n<title>Index of ");
    s.append(esc.as_str());
    s.append(
        "</title>\n<style>\ntable {\n  border-collapse: separate;\n  border-spacing: 1.5em 0.25em;\n}\nh1 {\n  padding-left: 0.3em;\n}\n.mono {\n  font-family: monospace;\n}\n</style>\n</head>\n<body>\n<h1>Index of ",
    );
    s.append(esc.as_str());
    s.append(
        "</h1>\n<table>\n<tr>\n<th>Name</th><th>Last modified</th><th>Size</th>\n<tr><th colspan=\"3\"><hr></th></tr>\n<tr><td><a href=\"..\">Parent Directory</a></td><td>&nbsp;</td><td class=\"mono\" align=\"right\">[DIR]</td></tr>\n",
    );
    let ghost top = s@;
    let mut i: usize = 0;
    proof {
        assert(dirents@.take(0) =~= Seq::<Dirent>::empty());
    }
    while i < dirents.len()
        invariant
            stamps_wf(dirents@),
            i <= dirents@.len(),
            s@ == top + spec_rows(dirents@.take(i as int)),
        decreases dirents@.len() - i,
    {
        let row = render_row(&dirents[i]);
        s.append(row.as_str());
        i = i + 1;
        proof {
            assert(dirents@.take(i as int).drop_last() =~= dirents@.take(i - 1));
            assert(dirents@.take(i as int).last() == dirents@[i - 1]);
            assert(s@ =~= top + spec_rows(dirents@.take(i as int)));
        }
    }
    s.append("<tr><th colspan=\"3\"><hr></th></tr>\n</table></body></html>\n");
    proof {
        assert(dirents@.take(dirents@.len() as int) =~= dirents@);
        assert(s@ =~= spec_listing_page(path@, dirents@));
    }
    s
}

/// A finished page-level response: status, headers, and an optional
/// HTML body.
pub struct PageResponse {
    pub status: u16,
    pub headers: Vec<Header>,
    pub body: Option<String>,
}

/// A directory asked for without its collection form (no trailing
/// slash) is redirected to the slash-appended form, with an empty body.
pub fn dirlist_redirect(location_base: &str) -> (r: PageResponse)
    ensures
        r.status == 302,
        headers_view(r.headers@) =~~= seq![
            ("Location"@, location_base@ + seq!['/']),
            ("Content-Length"@, "0"@),
        ],
        r.body is None,
{
    proof {
        reveal_strlit("/");
    }
    let mut location = String::from_str(location_base);
    location.append("/");
    let mut headers: Vec<Header> = Vec::new();
    headers.push((String::from_str("Location"), location));
    headers.push((String::from_str("Content-Length"), String::from_str("0")));
    PageResponse { status: 302, headers, body: None }
}

/// The listing response for a collection: status 200, an HTML content
/// type, and — unless the method was `HEAD` — the rendered index page.
/// The headers do not depend on the method.
pub fn dirlist_page(path: &str, dirents: &Vec<Dirent>, head: bool) -> (r: PageResponse)
    requires
        stamps_wf(dirents@),
    ensures
        r.status == 200,
        headers_view(r.headers@) =~~= seq![("Content-Type"@, "text/html; charset=utf-8"@)],
        head ==> r.body is None,
        !head ==> (r.body matches Some(b) && b@ == spec_listing_page(path@, dirents@)),
{
    let mut headers: Vec<Header> = Vec::new();
    headers.push(
        (String::from_str("Content-Type"), String::from_str("text/html; charset=utf-8")),
    );
    let body = if head {
        None
    } else {
        Some(render_dirlist(path, dirents))
    };
    PageResponse { status: 200, headers, body }
}

/// Whether a normalized path is already in collection form: it ends in
/// the path separator.
pub fn is_collection_form(path: &str) -> (r: bool)
    ensures
        r == (path@.len() > 0 && path@.last() == '/'),
{
    let len = path.unicode_len();
    len > 0 && path.get_char(len - 1) == '/'
}

} // verus!
