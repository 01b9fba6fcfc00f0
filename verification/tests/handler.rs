use nas_rs::browse::navigate;
use nas_rs::codec::{decode_dir_enum, decode_file_read, encode_request, frame_message};
use nas_rs::handler::{
    start_connection, step, visible_entries, Action, Event, HandlerState, RawEntry, ServiceError,
};
use nas_rs::protocol::{response_shape, Request, ResponseShape};

const ROOT: &str = "/tmp/nas_rs_missing_root";

fn frame_of(req: &Request) -> Vec<u8> {
    encode_request(req)
}

// One whole `Write` exchange, then the file read back: the end-to-end story
// at the decision level, with the filesystem's part played by events.
#[test]
fn write_then_read_exchange() {
    let (state, action) = start_connection();
    assert!(matches!(action, Action::ReadFrame));

    // Client side: what goes on the wire.
    let req = Request::Write { path: "docs/a.txt".to_string(), len: 5 };
    assert_eq!(response_shape(&req), ResponseShape::StatusOnly);
    let bytes = frame_of(&req);

    // Server side: the frame arrives.
    let (state, action) = step(state, Event::Frame { bytes }, ROOT);
    match &action {
        Action::ReadPayload { len } => assert_eq!(*len, 5),
        _ => panic!("a write must ask for its payload"),
    }

    // The payload arrives.
    let (state, action) = step(state, Event::Payload { data: b"hello".to_vec() }, ROOT);
    match &action {
        Action::WriteFile { path, data } => {
            assert_eq!(path.as_str(), "/tmp/nas_rs_missing_root/docs/a.txt");
            assert_eq!(data.as_slice(), b"hello");
        }
        _ => panic!("the payload must be written out"),
    }

    // The filesystem stored it; the status closes the exchange.
    let (state, action) = step(state, Event::FsOk, ROOT);
    assert!(matches!(action, Action::SendStatus));
    let (state, action) = step(state, Event::Sent, ROOT);
    assert!(matches!(action, Action::Stop { error: None }));
    assert!(matches!(state, HandlerState::Closed { error: None }));

    // A second connection reads the file back.
    let req = Request::Read { path: "docs/a.txt".to_string() };
    assert_eq!(response_shape(&req), ResponseShape::FileThenStatus);
    let (state, _) = start_connection();
    let (state, action) = step(state, Event::Frame { bytes: frame_of(&req) }, ROOT);
    match &action {
        Action::ReadFile { path } => {
            assert_eq!(path.as_str(), "/tmp/nas_rs_missing_root/docs/a.txt")
        }
        _ => panic!("a read must load the file"),
    }
    let (state, action) = step(state, Event::FsData { data: b"hello".to_vec() }, ROOT);
    let sent = match action {
        Action::SendMessage { bytes } => bytes,
        _ => panic!("a read must answer with the file"),
    };
    // The response is a framed FileRead{5} followed by the 5 raw bytes.
    let header = &sent[..8];
    assert_eq!(header, &[8u8, 0, 0, 0, 0, 0, 0, 0]);
    let info = decode_file_read(&sent[8..16]).expect("a FileRead message");
    assert_eq!(info.len, 5);
    assert_eq!(&sent[16..], b"hello");

    let (state, action) = step(state, Event::Sent, ROOT);
    assert!(matches!(action, Action::SendStatus));
    let (_, action) = step(state, Event::Sent, ROOT);
    assert!(matches!(action, Action::Stop { error: None }));
}

#[test]
fn enumeration_filters_symlinks() {
    let (state, _) = start_connection();
    let req = Request::EnumDir { path: ".".to_string() };
    assert_eq!(response_shape(&req), ResponseShape::ListingThenStatus);
    let (state, action) = step(state, Event::Frame { bytes: frame_of(&req) }, ROOT);
    match &action {
        Action::QueryIsDir { path } => assert_eq!(path.as_str(), ROOT),
        _ => panic!("enumeration must check the target first"),
    }
    let (state, action) = step(state, Event::FsIsDir { is_dir: true }, ROOT);
    match &action {
        Action::ListDir { path } => assert_eq!(path.as_str(), ROOT),
        _ => panic!("a directory gets listed"),
    }
    let entries = vec![
        RawEntry { name: "a.txt".to_string(), is_dir: false, is_symlink: false },
        RawEntry { name: "sub".to_string(), is_dir: true, is_symlink: false },
        RawEntry { name: "ln".to_string(), is_dir: false, is_symlink: true },
    ];
    let (_, action) = step(state, Event::FsListing { entries }, ROOT);
    let sent = match action {
        Action::SendMessage { bytes } => bytes,
        _ => panic!("a listing must be sent"),
    };
    let listing = decode_dir_enum(&sent[8..]).expect("a DirEnum message");
    // Order is whatever the iteration produced; compare as sets.
    assert_eq!(listing.files.len(), 2);
    assert!(listing.files.contains(&("a.txt".to_string(), false)));
    assert!(listing.files.contains(&("sub".to_string(), true)));
}

#[test]
fn enumeration_of_a_file_fails() {
    let (state, _) = start_connection();
    let req = Request::EnumDir { path: "a.txt".to_string() };
    let (state, _) = step(state, Event::Frame { bytes: frame_of(&req) }, ROOT);
    let (state, action) = step(state, Event::FsIsDir { is_dir: false }, ROOT);
    assert!(matches!(action, Action::Stop { error: Some(ServiceError::Filesystem) }));
    assert!(matches!(state, HandlerState::Closed { error: Some(ServiceError::Filesystem) }));
}

#[test]
fn visible_entries_alone() {
    let entries = vec![
        RawEntry { name: "x".to_string(), is_dir: false, is_symlink: true },
        RawEntry { name: "y".to_string(), is_dir: true, is_symlink: false },
    ];
    let d = visible_entries(&entries);
    assert_eq!(d.files, vec![("y".to_string(), true)]);
}

#[test]
fn delete_directory_recursively() {
    let (state, _) = start_connection();
    let req = Request::Delete { path: "sub".to_string() };
    let (state, action) = step(state, Event::Frame { bytes: frame_of(&req) }, ROOT);
    assert!(matches!(action, Action::QueryIsDir { .. }));
    let (state, action) = step(state, Event::FsIsDir { is_dir: true }, ROOT);
    match &action {
        Action::RemoveDir { path } => assert_eq!(path.as_str(), "/tmp/nas_rs_missing_root/sub"),
        _ => panic!("a directory is removed recursively"),
    }
    let (_, action) = step(state, Event::FsOk, ROOT);
    assert!(matches!(action, Action::SendStatus));
}

#[test]
fn delete_file_plainly() {
    let (state, _) = start_connection();
    let req = Request::Delete { path: "a.txt".to_string() };
    let (state, _) = step(state, Event::Frame { bytes: frame_of(&req) }, ROOT);
    let (_, action) = step(state, Event::FsIsDir { is_dir: false }, ROOT);
    assert!(matches!(action, Action::RemoveFile { .. }));
}

#[test]
fn delete_missing_target_ends_the_connection_only() {
    let (state, _) = start_connection();
    let req = Request::Delete { path: "missing".to_string() };
    let (state, _) = step(state, Event::Frame { bytes: frame_of(&req) }, ROOT);
    // The filesystem cannot answer the directory query: the connection ends
    // with a filesystem error and nothing else is asked for.
    let (state, action) = step(
        state,
        Event::Failed { error: ServiceError::Filesystem },
        ROOT,
    );
    assert!(matches!(action, Action::Stop { error: Some(ServiceError::Filesystem) }));
    assert!(matches!(state, HandlerState::Closed { error: Some(ServiceError::Filesystem) }));
}

#[test]
fn sandbox_rejection_closes_with_sandbox_error() {
    let (state, _) = start_connection();
    let req = Request::MkDir { path: "../outside".to_string() };
    let (state, action) = step(state, Event::Frame { bytes: frame_of(&req) }, ROOT);
    assert!(matches!(action, Action::Stop { error: Some(ServiceError::Sandbox) }));
    assert!(matches!(state, HandlerState::Closed { error: Some(ServiceError::Sandbox) }));
}

#[test]
fn mkdir_dispatches_to_the_joined_path() {
    let (state, _) = start_connection();
    let req = Request::MkDir { path: "sub".to_string() };
    let (_, action) = step(state, Event::Frame { bytes: frame_of(&req) }, ROOT);
    match &action {
        Action::CreateDir { path } => assert_eq!(path.as_str(), "/tmp/nas_rs_missing_root/sub"),
        _ => panic!("mkdir must create the joined path"),
    }
}

#[test]
fn garbage_frame_is_a_protocol_error() {
    let (state, _) = start_connection();
    let (state, action) = step(state, Event::Frame { bytes: vec![42u8, 0, 7] }, ROOT);
    assert!(matches!(action, Action::Stop { error: Some(ServiceError::Protocol) }));
    assert!(matches!(state, HandlerState::Closed { error: Some(ServiceError::Protocol) }));
}

#[test]
fn oversized_write_is_refused_before_any_allocation() {
    let (state, _) = start_connection();
    let req = Request::Write { path: "a".to_string(), len: u64::MAX };
    let (_, action) = step(state, Event::Frame { bytes: frame_of(&req) }, ROOT);
    assert!(matches!(action, Action::Stop { error: Some(ServiceError::Protocol) }));
}

#[test]
fn short_payload_is_a_protocol_error() {
    let (state, _) = start_connection();
    let req = Request::Write { path: "a".to_string(), len: 5 };
    let (state, _) = step(state, Event::Frame { bytes: frame_of(&req) }, ROOT);
    let (_, action) = step(state, Event::Payload { data: b"hi".to_vec() }, ROOT);
    assert!(matches!(action, Action::Stop { error: Some(ServiceError::Protocol) }));
}

#[test]
fn unexpected_event_is_a_protocol_error() {
    let (state, _) = start_connection();
    let (_, action) = step(state, Event::FsOk, ROOT);
    assert!(matches!(action, Action::Stop { error: Some(ServiceError::Protocol) }));
}

#[test]
fn browser_navigation() {
    assert_eq!(navigate(".", "sub"), "sub");
    assert_eq!(navigate("sub", "inner"), "sub/inner");
    assert_eq!(navigate("sub/inner", ".."), "sub");
    assert_eq!(navigate("sub", ".."), ".");
    assert_eq!(navigate(".", ".."), ".");
}
