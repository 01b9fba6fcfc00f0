//! Connection handler: the decision logic of one server connection, as a
//! state machine. Each accepted connection owns one `HandlerState`; `step`
//! consumes one event (a received frame, a payload, a filesystem answer, a
//! completed send, a failure) and says what the connection does next. All
//! I/O — the socket reads and writes and the filesystem calls — is performed
//! by the caller, which feeds the outcome back in as the next event, so every
//! decision along the way is checked here.
//!
//! Every filesystem action carries a `SanitizedPath`, which only the path
//! sandbox constructs: no filesystem operation can ever be asked for on a
//! path that has not passed through the sandbox.
use vstd::prelude::*;
use vstd::string::StringSliceAdditionalSpecFns;
use vstd::utf8::encode_utf8;

use crate::codec::spec_decode_request;
use crate::codec::spec_encode_dir_enum;
use crate::codec::spec_encode_file_read;
use crate::codec::spec_frame;
use crate::codec::decode_request;
use crate::codec::encode_dir_enum;
use crate::codec::encode_file_read;
use crate::codec::frame_message;
use crate::codec::MAX_FRAME_LEN;
use crate::protocol::DirEnum;
use crate::protocol::FileRead;
use crate::protocol::ReqView;
use crate::protocol::Request;
use crate::sandbox::path_allowed;
use crate::sandbox::sanitize_path;
use crate::sandbox::sanitize_path_enum;
use crate::sandbox::spec_join;
use crate::sandbox::SanitizedPath;
use crate::sandbox::DOT;

verus! {

/// Why a connection ended before its exchange completed.
#[derive(Clone, Copy, Debug, PartialEq, Eq, Structural)]
pub enum ServiceError {
    /// Truncated or corrupted frame, or a message that fails validation.
    Protocol,
    /// Socket failure reported by the caller.
    Transport,
    /// The request's path was rejected by the sandbox.
    Sandbox,
    /// A filesystem operation failed or found the wrong kind of target.
    Filesystem,
}

/// One directory child as the filesystem reports it, before the listing
/// policy is applied.
pub struct RawEntry {
    pub name: String,
    pub is_dir: bool,
    pub is_symlink: bool,
}

impl View for RawEntry {
    type V = (Seq<char>, bool, bool);

    open spec fn view(&self) -> (Seq<char>, bool, bool) {
        (self.name@, self.is_dir, self.is_symlink)
    }
}

impl DeepView for RawEntry {
    type V = (Seq<char>, bool, bool);

    open spec fn deep_view(&self) -> (Seq<char>, bool, bool) {
        self@
    }
}

/// What one connection is waiting for.
pub enum HandlerState {
    /// Waiting for the request frame.
    AwaitingRequest,
    /// A `Write` request arrived; waiting for its raw payload.
    AwaitingPayload { path: String, len: u64 },
    /// Waiting for the filesystem to store a file.
    StoringFile,
    /// Waiting for the filesystem to create a directory.
    MakingDir,
    /// A `Delete` arrived; waiting to learn whether the target is a directory.
    ResolvingDelete { path: SanitizedPath },
    /// Waiting for the filesystem to remove the target.
    Removing,
    /// Waiting for the filesystem to read the file back.
    LoadingFile,
    /// An `EnumDir` arrived; waiting to learn whether the target is a directory.
    ResolvingList { path: SanitizedPath },
    /// Waiting for the directory listing.
    Listing,
    /// A response with a payload is on its way out.
    SendingFile,
    /// A listing response is on its way out.
    SendingListing,
    /// The trailing status word is on its way out.
    SendingStatus,
    /// The exchange is over; `error` says how.
    Closed { error: Option<ServiceError> },
}

/// One thing that happened to the connection, fed in by the caller.
pub enum Event {
    /// One framed message arrived: these are its bytes.
    Frame { bytes: Vec<u8> },
    /// Raw payload bytes arrived.
    Payload { data: Vec<u8> },
    /// A filesystem operation with no answer completed.
    FsOk,
    /// The filesystem says whether the queried path is a directory.
    FsIsDir { is_dir: bool },
    /// The filesystem read these bytes back.
    FsData { data: Vec<u8> },
    /// The filesystem listed these direct children.
    FsListing { entries: Vec<RawEntry> },
    /// The previous send completed.
    Sent,
    /// The caller could not complete what was asked of it.
    Failed { error: ServiceError },
}

/// What the connection asks its caller to do next.
pub enum Action {
    /// Read one framed message.
    ReadFrame,
    /// Read exactly `len` raw payload bytes.
    ReadPayload { len: u64 },
    /// Create the parent directories as needed and write `data` to `path`,
    /// replacing what was there.
    WriteFile { path: SanitizedPath, data: Vec<u8> },
    /// Create the directory `path` (non-recursive).
    CreateDir { path: SanitizedPath },
    /// Ask whether `path` is a directory.
    QueryIsDir { path: SanitizedPath },
    /// Remove the directory `path` and all its contents.
    RemoveDir { path: SanitizedPath },
    /// Remove the file `path`.
    RemoveFile { path: SanitizedPath },
    /// Read the whole file at `path`.
    ReadFile { path: SanitizedPath },
    /// List the direct children of `path`.
    ListDir { path: SanitizedPath },
    /// Write these bytes to the peer.
    SendMessage { bytes: Vec<u8> },
    /// Write the trailing status word `0`.
    SendStatus,
    /// Close the connection; `error` says why, if anything went wrong.
    Stop { error: Option<ServiceError> },
}

/// The connection ended with `e`, both in its state and in what the caller
/// is told.
pub open spec fn closed_with(r: (HandlerState, Action), e: ServiceError) -> bool {
    &&& r.0 is Closed
    &&& r.0->Closed_error == Some(e)
    &&& r.1 is Stop
    &&& r.1->Stop_error == Some(e)
}

/// The UTF-8 bytes of a request path.
pub open spec fn path_bytes(path: Seq<char>) -> Seq<u8> {
    encode_utf8(path)
}

/// The listing that a `DirEnum` response reports for the raw children `es`:
/// symbolic links are dropped, and each remaining child keeps its name and
/// its directory flag, in order.
pub open spec fn spec_visible_entries(es: Seq<(Seq<char>, bool, bool)>) -> Seq<(Seq<char>, bool)>
    decreases es.len(),
{
    if es.len() == 0 {
        Seq::empty()
    } else {
        let rest = spec_visible_entries(es.drop_last());
        let e = es.last();
        if e.2 {
            rest
        } else {
            rest.push((e.0, e.1))
        }
    }
}

/// Applies the listing policy: drops symbolic links, keeps each remaining
/// child's name and directory flag.
pub fn visible_entries(entries: &Vec<RawEntry>) -> (out: DirEnum)
    ensures
        out@ == spec_visible_entries(entries.deep_view()),
{
    let mut files: Vec<(String, bool)> = Vec::new();
    let n = entries.len();
    let mut i: usize = 0;
    proof {
        assert(entries.deep_view().take(0) =~= Seq::<(Seq<char>, bool, bool)>::empty());
        assert(files.deep_view() =~= Seq::<(Seq<char>, bool)>::empty());
    }
    while i < n
        invariant
            n == entries.len(),
            i <= n,
            entries.deep_view().len() == n,
            files.deep_view() == spec_visible_entries(entries.deep_view().take(i as int)),
        decreases n - i,
    {
        let ghost pre = entries.deep_view().take(i as int);
        let e = &entries[i];
        proof {
            assert(entries.deep_view()[i as int] == e@);
            assert(entries.deep_view().take(i + 1 as int).drop_last() =~= pre);
            assert(entries.deep_view().take(i + 1 as int).last() == e@);
        }
        if !e.is_symlink {
            let ghost before = files.deep_view();
            files.push((e.name.clone(), e.is_dir));
            proof {
                assert(files.deep_view() =~= before.push((e.name@, e.is_dir)));
            }
        }
        i = i + 1;
    }
    proof {
        assert(entries.deep_view().take(n as int) =~= entries.deep_view());
    }
    DirEnum { files }
}

/// The sandbox admitted `path` and resolved it to `p`, which is `root/path`.
pub open spec fn sandboxed_to(path: Seq<char>, root: Seq<char>, p: SanitizedPath) -> bool {
    &&& path_allowed(path_bytes(path))
    &&& p@ == spec_join(root, path)
}

/// The event each state is waiting for.
pub open spec fn awaits(state: HandlerState, event: Event) -> bool {
    match state {
        HandlerState::AwaitingRequest => event is Frame,
        HandlerState::AwaitingPayload { .. } => event is Payload,
        HandlerState::StoringFile => event is FsOk,
        HandlerState::MakingDir => event is FsOk,
        HandlerState::Removing => event is FsOk,
        HandlerState::ResolvingDelete { .. } => event is FsIsDir,
        HandlerState::LoadingFile => event is FsData,
        HandlerState::ResolvingList { .. } => event is FsIsDir,
        HandlerState::Listing => event is FsListing,
        HandlerState::SendingFile => event is Sent,
        HandlerState::SendingListing => event is Sent,
        HandlerState::SendingStatus => event is Sent,
        HandlerState::Closed { .. } => false,
    }
}

/// What dispatching a decoded request must produce. For every variant but
/// `Write`, the path goes through the sandbox: a screened path yields the
/// operation on `root/path` unless the filesystem reports a symbolic link,
/// and a rejected path always closes the connection with a sandbox error.
pub open spec fn dispatch_outcome(req: ReqView, root: Seq<char>, r: (HandlerState, Action)) -> bool {
    match req {
        ReqView::Write { path, len } => if len <= MAX_FRAME_LEN {
            &&& r.0 is AwaitingPayload
            &&& r.0->AwaitingPayload_path@ == path
            &&& r.0->AwaitingPayload_len == len
            &&& r.1 is ReadPayload
            &&& r.1->ReadPayload_len == len
        } else {
            closed_with(r, ServiceError::Protocol)
        },
        ReqView::MkDir { path } => {
            &&& (closed_with(r, ServiceError::Sandbox) || (r.0 is MakingDir && r.1 is CreateDir
                && sandboxed_to(path, root, r.1->CreateDir_path)))
            &&& (!path_allowed(path_bytes(path)) ==> closed_with(r, ServiceError::Sandbox))
        },
        ReqView::Delete { path } => {
            &&& (closed_with(r, ServiceError::Sandbox) || (r.0 is ResolvingDelete
                && r.1 is QueryIsDir && sandboxed_to(path, root, r.1->QueryIsDir_path)
                && r.0->ResolvingDelete_path@ == r.1->QueryIsDir_path@))
            &&& (!path_allowed(path_bytes(path)) ==> closed_with(r, ServiceError::Sandbox))
        },
        ReqView::Read { path } => {
            &&& (closed_with(r, ServiceError::Sandbox) || (r.0 is LoadingFile && r.1 is ReadFile
                && sandboxed_to(path, root, r.1->ReadFile_path)))
            &&& (!path_allowed(path_bytes(path)) ==> closed_with(r, ServiceError::Sandbox))
        },
        ReqView::EnumDir { path } => if path_bytes(path) == seq![DOT] {
            &&& r.0 is ResolvingList
            &&& r.1 is QueryIsDir
            &&& r.1->QueryIsDir_path@ == root
            &&& r.0->ResolvingList_path@ == root
        } else {
            &&& (closed_with(r, ServiceError::Sandbox) || (r.0 is ResolvingList
                && r.1 is QueryIsDir && sandboxed_to(path, root, r.1->QueryIsDir_path)
                && r.0->ResolvingList_path@ == r.1->QueryIsDir_path@))
            &&& (!path_allowed(path_bytes(path)) ==> closed_with(r, ServiceError::Sandbox))
        },
    }
}

/// Ends the connection with `e`.
fn fail(e: ServiceError) -> (r: (HandlerState, Action))
    ensures
        closed_with(r, e),
{
    (HandlerState::Closed { error: Some(e) }, Action::Stop { error: Some(e) })
}

/// Dispatches one decoded request, as `dispatch_outcome` describes.
pub fn dispatch_request(req: Request, root: &str) -> (r: (HandlerState, Action))
    ensures
        dispatch_outcome(req@, root@, r),
{
    match req {
        Request::Write { path, len } => {
            if len <= MAX_FRAME_LEN {
                (HandlerState::AwaitingPayload { path, len }, Action::ReadPayload { len })
            } else {
                fail(ServiceError::Protocol)
            }
        },
        Request::MkDir { path } => {
            match sanitize_path(path.as_str(), root) {
                None => fail(ServiceError::Sandbox),
                Some(p) => (HandlerState::MakingDir, Action::CreateDir { path: p }),
            }
        },
        Request::Delete { path } => {
            match sanitize_path(path.as_str(), root) {
                None => fail(ServiceError::Sandbox),
                Some(p) => {
                    let q = p.duplicate();
                    (HandlerState::ResolvingDelete { path: q }, Action::QueryIsDir { path: p })
                },
            }
        },
        Request::Read { path } => {
            match sanitize_path(path.as_str(), root) {
                None => fail(ServiceError::Sandbox),
                Some(p) => (HandlerState::LoadingFile, Action::ReadFile { path: p }),
            }
        },
        Request::EnumDir { path } => {
            match sanitize_path_enum(path.as_str(), root) {
                None => fail(ServiceError::Sandbox),
                Some(p) => {
                    let q = p.duplicate();
                    (HandlerState::ResolvingList { path: q }, Action::QueryIsDir { path: p })
                },
            }
        },
    }
}

/// A fresh connection: waiting for its one request frame.
pub fn start_connection() -> (r: (HandlerState, Action))
    ensures
        r.0 is AwaitingRequest,
        r.1 is ReadFrame,
{
    (HandlerState::AwaitingRequest, Action::ReadFrame)
}

/// Advances one connection by one event and says what to do next.
///
/// A `Failed` event, in any state, ends only this connection, carrying the
/// reported error. An event that the state is not waiting for is a protocol
/// violation and ends the connection too. Everything else follows the
/// dispatch table stated clause by clause below.
pub fn step(state: HandlerState, event: Event, root: &str) -> (r: (HandlerState, Action))
    ensures
        event is Failed ==> closed_with(r, event->Failed_error),
        state is AwaitingRequest && event is Frame ==> (match spec_decode_request(
            event->Frame_bytes@,
        ) {
            Some(req) => dispatch_outcome(req, root@, r),
            None => closed_with(r, ServiceError::Protocol),
        }),
        state is AwaitingPayload && event is Payload ==> ({
            let path = state->AwaitingPayload_path@;
            let len = state->AwaitingPayload_len;
            let data = event->Payload_data@;
            if data.len() != len {
                closed_with(r, ServiceError::Protocol)
            } else {
                &&& (closed_with(r, ServiceError::Sandbox) || (r.0 is StoringFile
                    && r.1 is WriteFile && sandboxed_to(path, root@, r.1->WriteFile_path)
                    && r.1->WriteFile_data@ == data))
                &&& (!path_allowed(path_bytes(path)) ==> closed_with(r, ServiceError::Sandbox))
            }
        }),
        (state is StoringFile || state is MakingDir || state is Removing) && event is FsOk ==> r.0
            is SendingStatus && r.1 is SendStatus,
        state is ResolvingDelete && event is FsIsDir ==> {
            &&& r.0 is Removing
            &&& (event->FsIsDir_is_dir ==> r.1 is RemoveDir && r.1->RemoveDir_path@
                == state->ResolvingDelete_path@)
            &&& (!event->FsIsDir_is_dir ==> r.1 is RemoveFile && r.1->RemoveFile_path@
                == state->ResolvingDelete_path@)
        },
        state is LoadingFile && event is FsData ==> {
            &&& r.0 is SendingFile
            &&& r.1 is SendMessage
            &&& r.1->SendMessage_bytes@ == spec_frame(
                spec_encode_file_read(event->FsData_data@.len() as u64),
            ) + event->FsData_data@
        },
        state is ResolvingList && event is FsIsDir ==> (if event->FsIsDir_is_dir {
            r.0 is Listing && r.1 is ListDir && r.1->ListDir_path@ == state->ResolvingList_path@
        } else {
            closed_with(r, ServiceError::Filesystem)
        }),
        state is Listing && event is FsListing ==> {
            &&& r.0 is SendingListing
            &&& r.1 is SendMessage
            &&& r.1->SendMessage_bytes@ == spec_frame(
                spec_encode_dir_enum(spec_visible_entries(event->FsListing_entries.deep_view())),
            )
        },
        (state is SendingFile || state is SendingListing) && event is Sent ==> r.0
            is SendingStatus && r.1 is SendStatus,
        state is SendingStatus && event is Sent ==> r.0 is Closed && r.0->Closed_error is None
            && r.1 is Stop && r.1->Stop_error is None,
        !awaits(state, event) && !(event is Failed) ==> closed_with(r, ServiceError::Protocol),
{
    match (state, event) {
        (HandlerState::AwaitingRequest, Event::Frame { bytes }) => {
            match decode_request(bytes.as_slice()) {
                None => fail(ServiceError::Protocol),
                Some(req) => dispatch_request(req, root),
            }
        },
        (HandlerState::AwaitingPayload { path, len }, Event::Payload { data }) => {
            if data.len() as u64 != len {
                fail(ServiceError::Protocol)
            } else {
                match sanitize_path(path.as_str(), root) {
                    None => fail(ServiceError::Sandbox),
                    Some(p) => (HandlerState::StoringFile, Action::WriteFile { path: p, data }),
                }
            }
        },
        (HandlerState::StoringFile, Event::FsOk) => (
            HandlerState::SendingStatus,
            Action::SendStatus,
        ),
        (HandlerState::MakingDir, Event::FsOk) => (HandlerState::SendingStatus, Action::SendStatus),
        (HandlerState::Removing, Event::FsOk) => (HandlerState::SendingStatus, Action::SendStatus),
        (HandlerState::ResolvingDelete { path }, Event::FsIsDir { is_dir }) => {
            if is_dir {
                (HandlerState::Removing, Action::RemoveDir { path })
            } else {
                (HandlerState::Removing, Action::RemoveFile { path })
            }
        },
        (HandlerState::LoadingFile, Event::FsData { data }) => {
            let info = FileRead { len: data.len() as u64 };
            let msg = encode_file_read(&info);
            let mut framed = frame_message(msg.as_slice());
            let mut payload = data;
            framed.append(&mut payload);
            (HandlerState::SendingFile, Action::SendMessage { bytes: framed })
        },
        (HandlerState::ResolvingList { path }, Event::FsIsDir { is_dir }) => {
            if is_dir {
                (HandlerState::Listing, Action::ListDir { path })
            } else {
                fail(ServiceError::Filesystem)
            }
        },
        (HandlerState::Listing, Event::FsListing { entries }) => {
            let listing = visible_entries(&entries);
            let msg = encode_dir_enum(&listing);
            let framed = frame_message(msg.as_slice());
            (HandlerState::SendingListing, Action::SendMessage { bytes: framed })
        },
        (HandlerState::SendingFile, Event::Sent) => (
            HandlerState::SendingStatus,
            Action::SendStatus,
        ),
        (HandlerState::SendingListing, Event::Sent) => (
            HandlerState::SendingStatus,
            Action::SendStatus,
        ),
        (HandlerState::SendingStatus, Event::Sent) => (
            HandlerState::Closed { error: None },
            Action::Stop { error: None },
        ),
        (_, Event::Failed { error }) => fail(error),
        _ => fail(ServiceError::Protocol),
    }
}

} // verus!
