//! Request model: the closed set of file operations a client may ask for,
//! and the shapes of the structured responses.
use vstd::prelude::*;

verus! {

/// One client operation. `path` is always relative to the served root; for
/// `Write`, `len` is the exact byte count of the raw payload that follows
/// the framed request on the wire.
#[derive(Clone, Debug)]
pub enum Request {
    Write { path: String, len: u64 },
    MkDir { path: String },
    Read { path: String },
    EnumDir { path: String },
    Delete { path: String },
}

/// Mathematical image of a `Request`: paths as character sequences.
pub enum ReqView {
    Write { path: Seq<char>, len: u64 },
    MkDir { path: Seq<char> },
    Read { path: Seq<char> },
    EnumDir { path: Seq<char> },
    Delete { path: Seq<char> },
}

impl View for Request {
    type V = ReqView;

    open spec fn view(&self) -> ReqView {
        match self {
            Request::Write { path, len } => ReqView::Write { path: path@, len: *len },
            Request::MkDir { path } => ReqView::MkDir { path: path@ },
            Request::Read { path } => ReqView::Read { path: path@ },
            Request::EnumDir { path } => ReqView::EnumDir { path: path@ },
            Request::Delete { path } => ReqView::Delete { path: path@ },
        }
    }
}

/// Response to `Read`: the byte count of the raw file payload that
/// immediately follows this message on the wire.
#[derive(Clone, Debug)]
pub struct FileRead {
    pub len: u64,
}

impl View for FileRead {
    type V = u64;

    open spec fn view(&self) -> u64 {
        self.len
    }
}

/// Response to `EnumDir`: the direct children of the directory, each with
/// its name and whether it is itself a directory. Symbolic links are left
/// out; the order is whatever the directory iteration produced.
#[derive(Clone, Debug)]
pub struct DirEnum {
    pub files: Vec<(String, bool)>,
}

impl View for DirEnum {
    type V = Seq<(Seq<char>, bool)>;

    open spec fn view(&self) -> Seq<(Seq<char>, bool)> {
        self.files.deep_view()
    }
}

/// What a client must read back after sending a request, before the
/// trailing status word.
#[derive(Clone, Copy, Debug, PartialEq, Eq, Structural)]
pub enum ResponseShape {
    /// No structured response: only the status follows.
    StatusOnly,
    /// A `FileRead` message, then exactly that many raw payload bytes.
    FileThenStatus,
    /// A `DirEnum` message.
    ListingThenStatus,
}

/// The response shape each request variant is owed.
pub open spec fn spec_response_shape(r: ReqView) -> ResponseShape {
    match r {
        ReqView::Read { .. } => ResponseShape::FileThenStatus,
        ReqView::EnumDir { .. } => ResponseShape::ListingThenStatus,
        _ => ResponseShape::StatusOnly,
    }
}

/// Tells a client which response frames to expect for `r`.
pub fn response_shape(r: &Request) -> (s: ResponseShape)
    ensures
        s == spec_response_shape(r@),
{
    match r {
        Request::Read { .. } => ResponseShape::FileThenStatus,
        Request::EnumDir { .. } => ResponseShape::ListingThenStatus,
        _ => ResponseShape::StatusOnly,
    }
}

} // verus!
