use vstd::prelude::*;

pub mod dirlist;
pub mod escape;
pub mod gethead;
pub mod numfmt;
pub mod range;
pub mod rangehdr;
pub mod report;
pub mod stream;
pub mod strutil;
pub mod timefmt;

verus! {

/// A response header: name and value.
pub type Header = (String, String);

/// The view of a header list: name and value as character sequences.
pub open spec fn headers_view(h: Seq<Header>) -> Seq<(Seq<char>, Seq<char>)> {
    h.map_values(|p: Header| (p.0@, p.1@))
}

/// A resolved byte window into a resource of `total_len` bytes.
///
/// Invariant: when `total_len > 0` the window lies inside the resource;
/// when `total_len == 0` the window is empty and starts at zero.
pub struct TransferWindow {
    pub start: u64,
    pub count: u64,
    pub total_len: u64,
}

impl TransferWindow {
    /// The window is well formed: it never reaches past the end of the
    /// resource, and a window on an empty resource is itself empty.
    pub open spec fn wf(self) -> bool {
        &&& self.start + self.count <= self.total_len
        &&& self.total_len == 0 ==> self.start == 0 && self.count == 0
    }

    /// The full-body window over a resource of `len` bytes.
    pub fn full(len: u64) -> (w: TransferWindow)
        ensures
            w.wf(),
            w.start == 0,
            w.count == len,
            w.total_len == len,
    {
        TransferWindow { start: 0, count: len, total_len: len }
    }
}

} // verus!
