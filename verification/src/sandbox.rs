//! Path sandbox: screens a client-supplied relative path and resolves it
//! under a fixed root directory, rejecting anything that could escape.
//!
//! A path is rejected when it looks absolute (begins with `/` or `\`) or when
//! any of its components is `.` or `..`. The screening works on the UTF-8
//! bytes of the path; `/`, `\` and `.` are ASCII, so a byte-level scan sees
//! exactly the characters. A path that passes the screen is joined under the
//! root, and the joined path is rejected when its final component is a
//! symbolic link (intermediate components are deliberately not checked).
use vstd::prelude::*;
use vstd::string::StrSliceExecFns;
use vstd::string::StringSliceAdditionalSpecFns;

verus! {

/// Byte value of `/`.
pub const SLASH: u8 = 47;

/// Byte value of `\`.
pub const BACKSLASH: u8 = 92;

/// Byte value of `.`.
pub const DOT: u8 = 46;

/// A component boundary sits at byte index `i` of `b`: one step outside the
/// path, or a separator.
pub open spec fn boundary_at(b: Seq<u8>, i: int) -> bool {
    i == -1 || i == b.len() || (0 <= i < b.len() && b[i] == SLASH)
}

/// A path component that is exactly `.` occupies index `i` of `b`.
pub open spec fn dot_component_at(b: Seq<u8>, i: int) -> bool {
    &&& 0 <= i < b.len()
    &&& b[i] == DOT
    &&& boundary_at(b, i - 1)
    &&& boundary_at(b, i + 1)
}

/// A path component that is exactly `..` occupies indices `i` and `i + 1`.
pub open spec fn dotdot_component_at(b: Seq<u8>, i: int) -> bool {
    &&& 0 <= i && i + 1 < b.len()
    &&& b[i] == DOT
    &&& b[i + 1] == DOT
    &&& boundary_at(b, i - 1)
    &&& boundary_at(b, i + 2)
}

/// The path begins with a separator, so it names an absolute location.
pub open spec fn looks_absolute(b: Seq<u8>) -> bool {
    b.len() > 0 && (b[0] == SLASH || b[0] == BACKSLASH)
}

/// The sandbox admits the UTF-8 bytes `b` of a path: the path is relative
/// and no component of it is `.` or `..`.
pub open spec fn path_allowed(b: Seq<u8>) -> bool {
    &&& !looks_absolute(b)
    &&& forall|i: int| !dot_component_at(b, i)
    &&& forall|i: int| !dotdot_component_at(b, i)
}

/// Screens the bytes of `path` against the sandbox rules.
pub fn check_path(path: &str) -> (r: bool)
    ensures
        r == path_allowed(path.spec_bytes()),
{
    let b = path.as_bytes();
    if b.len() > 0 && (b[0] == SLASH || b[0] == BACKSLASH) {
        return false;
    }
    let n = b.len();
    let mut i: usize = 0;
    while i < n
        invariant
            n == b@.len(),
            b@ == path.spec_bytes(),
            i <= n,
            !looks_absolute(b@),
            forall|j: int| j < i ==> !dot_component_at(b@, j),
            forall|j: int| j < i ==> !dotdot_component_at(b@, j),
        decreases n - i,
    {
        if b[i] == DOT && (i == 0 || b[i - 1] == SLASH) {
            if i + 1 == n || b[i + 1] == SLASH {
                assert(dot_component_at(b@, i as int));
                return false;
            }
            if b[i + 1] == DOT && (i + 2 == n || b[i + 2] == SLASH) {
                assert(dotdot_component_at(b@, i as int));
                return false;
            }
        }
        i = i + 1;
    }
    true
}

/// The path that `path` names once joined under `root`: `root` itself for an
/// empty path, else `root`, a separator, and `path`.
pub open spec fn spec_join(root: Seq<char>, path: Seq<char>) -> Seq<char> {
    if path.len() == 0 {
        root
    } else {
        root + seq!['/'] + path
    }
}

/// Joins `path` under `root` with a `/` separator.
pub fn join_under_root(root: &str, path: &str) -> (r: String)
    ensures
        r@ == spec_join(root@, path@),
{
    let mut s = root.to_owned();
    if !path.is_empty() {
        proof {
            reveal_strlit("/");
        }
        assert("/"@ =~= seq!['/']);
        s.append("/");
        s.append(path);
        assert(s@ =~= root@ + seq!['/'] + path@);
    }
    s
}

/// A path certified to resolve inside the sandbox root. Only this module
/// constructs one, so a filesystem operation that demands a `SanitizedPath`
/// can only ever receive a path that passed the sandbox.
pub struct SanitizedPath {
    path: String,
}

impl View for SanitizedPath {
    type V = Seq<char>;

    closed spec fn view(&self) -> Seq<char> {
        self.path@
    }
}

impl SanitizedPath {
    /// The resolved absolute path, for handing to a filesystem call.
    pub fn as_str(&self) -> (r: &str)
        ensures
            r@ == self@,
    {
        self.path.as_str()
    }

    /// A copy of this certified path.
    pub fn duplicate(&self) -> (r: SanitizedPath)
        ensures
            r@ == self@,
    {
        SanitizedPath { path: self.path.clone() }
    }
}

/// Relies on std::path::Path::is_symlink: queries the filesystem for the
/// path's metadata without following a final symbolic link. The answer
/// depends on what is on disk, so nothing is promised of it.
#[verifier::external_body]
fn leaf_is_symlink(path: &str) -> bool {
    std::path::Path::new(path).is_symlink()
}

/// The sandbox decision, taken with the filesystem's answer in hand: `path`
/// resolves to `root/path` exactly when its bytes pass the screen and the
/// joined path's final component is not a symbolic link.
pub fn sanitize_checked(path: &str, root: &str, symlink: bool) -> (r: Option<SanitizedPath>)
    ensures
        r is Some <==> (path_allowed(path.spec_bytes()) && !symlink),
        r is Some ==> r->0@ == spec_join(root@, path@),
{
    if !check_path(path) {
        return None;
    }
    if symlink {
        return None;
    }
    Some(SanitizedPath { path: join_under_root(root, path) })
}

/// Resolves a client-supplied relative path against the canonical sandbox
/// `root`. The screening rules are exact; whether the joined path's final
/// component is a symbolic link is the filesystem's answer, so success also
/// depends on what is on disk.
pub fn sanitize_path(path: &str, root: &str) -> (r: Option<SanitizedPath>)
    ensures
        !path_allowed(path.spec_bytes()) ==> r is None,
        r is Some ==> path_allowed(path.spec_bytes()) && r->0@ == spec_join(root@, path@),
{
    if !check_path(path) {
        return None;
    }
    let joined = join_under_root(root, path);
    let symlink = leaf_is_symlink(joined.as_str());
    sanitize_checked(path, root, symlink)
}

/// Resolves a path for directory enumeration: the literal input `.` is an
/// explicit alias for the root itself; anything else goes through
/// `sanitize_path` unchanged.
pub fn sanitize_path_enum(path: &str, root: &str) -> (r: Option<SanitizedPath>)
    ensures
        path.spec_bytes() == seq![DOT] ==> (r is Some && r->0@ == root@),
        path.spec_bytes() != seq![DOT] && !path_allowed(path.spec_bytes()) ==> r is None,
        r is Some ==> (path.spec_bytes() == seq![DOT] && r->0@ == root@) || (path_allowed(
            path.spec_bytes(),
        ) && r->0@ == spec_join(root@, path@)),
{
    let b = path.as_bytes();
    if b.len() == 1 && b[0] == DOT {
        assert(b@ =~= seq![DOT]);
        return Some(SanitizedPath { path: root.to_owned() });
    }
    assert(path.spec_bytes() != seq![DOT]);
    sanitize_path(path, root)
}

} // verus!
