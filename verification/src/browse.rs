//! Client-side path navigation for an interactive file browser. The browser
//! shows one directory at a time, named by a relative path whose alias for
//! the served root is `.`; picking a child descends into it, and picking
//! `..` goes back up one component.
use vstd::prelude::*;
use vstd::string::StrSliceExecFns;
use vstd::string::StringExecFns;
use vstd::string::StringSliceAdditionalSpecFns;
use vstd::utf8::encode_scalar;
use vstd::utf8::encode_utf8;
use vstd::utf8::encode_utf8_valid_utf8;
use vstd::utf8::is_char_boundary_iff_not_is_continuation_byte;
use vstd::utf8::is_continuation_byte;
use vstd::utf8::valid_utf8;

use crate::sandbox::DOT;
use crate::sandbox::SLASH;

verus! {

/// Index of the last `/` among the bytes `b`, or -1 when there is none.
pub open spec fn last_slash(b: Seq<u8>) -> int
    decreases b.len(),
{
    if b.len() == 0 {
        -1
    } else if b.last() == SLASH {
        b.len() - 1
    } else {
        last_slash(b.drop_last())
    }
}

/// The bytes spell exactly `..`.
pub open spec fn is_dotdot(b: Seq<u8>) -> bool {
    b == seq![DOT, DOT]
}

/// The browser path reached from `path` by picking `selection`: `..` drops
/// the last component of `path` (back to the root alias `.` when `path` has
/// a single component); any other selection is a child of `path`, so it
/// replaces the root alias or is joined below `path` with a `/`.
pub fn navigate(path: &str, selection: &str) -> (r: String)
    ensures
        is_dotdot(selection.spec_bytes()) && last_slash(path.spec_bytes()) >= 0 ==> encode_utf8(
            r@,
        ) == path.spec_bytes().take(last_slash(path.spec_bytes())),
        is_dotdot(selection.spec_bytes()) && last_slash(path.spec_bytes()) == -1 ==> encode_utf8(
            r@,
        ) == seq![DOT],
        !is_dotdot(selection.spec_bytes()) && path.spec_bytes() == seq![DOT] ==> r@ == selection@,
        !is_dotdot(selection.spec_bytes()) && path.spec_bytes() != seq![DOT] ==> r@ == path@ + seq![
            '/',
        ] + selection@,
{
    let sb = selection.as_bytes();
    if sb.len() == 2 && sb[0] == DOT && sb[1] == DOT {
        assert(sb@ =~= seq![DOT, DOT]);
        let pb = path.as_bytes();
        let n = pb.len();
        let mut i: usize = n;
        proof {
            assert(pb@.take(n as int) =~= pb@);
        }
        while i > 0
            invariant
                i <= n,
                n == pb@.len(),
                pb@ == path.spec_bytes(),
                last_slash(pb@) == last_slash(pb@.take(i as int)),
            ensures
                i <= n,
                n == pb@.len(),
                pb@ == path.spec_bytes(),
                i == 0 ==> last_slash(pb@) == -1,
                i > 0 ==> last_slash(pb@) == i - 1,
            decreases i,
        {
            if pb[i - 1] == SLASH {
                assert(pb@.take(i as int).last() == SLASH);
                break ;
            }
            proof {
                assert(pb@.take(i as int).last() != SLASH);
                assert(pb@.take(i as int).drop_last() =~= pb@.take(i - 1 as int));
            }
            i = i - 1;
        }
        if i == 0 {
            let dot = String::from_str(".");
            proof {
                reveal_strlit(".");
                assert(dot@ =~= seq!['.']);
                lemma_dot_bytes(dot@);
            }
            return dot;
        }
        proof {
            broadcast use encode_utf8_valid_utf8;

            assert(valid_utf8(path.spec_bytes()));
            assert(!is_continuation_byte(SLASH)) by (bit_vector);
            lemma_last_slash_at(path.spec_bytes());
            assert(path.spec_bytes()[i - 1 as int] == SLASH);
            is_char_boundary_iff_not_is_continuation_byte(path.spec_bytes(), i - 1 as int);
        }
        let (head, _tail) = path.split_at(i - 1);
        return head.to_owned();
    }
    assert(!is_dotdot(selection.spec_bytes()));
    let pb = path.as_bytes();
    if pb.len() == 1 && pb[0] == DOT {
        assert(pb@ =~= seq![DOT]);
        return selection.to_owned();
    }
    assert(path.spec_bytes() != seq![DOT]);
    proof {
        reveal_strlit("/");
        assert("/"@ =~= seq!['/']);
    }
    let mut out = path.to_owned();
    out.append("/");
    out.append(selection);
    assert(out@ =~= path@ + seq!['/'] + selection@);
    out
}

/// The UTF-8 bytes of the one-character sequence `.` are the one byte `.`.
proof fn lemma_dot_bytes(s: Seq<char>)
    requires
        s =~= seq!['.'],
    ensures
        encode_utf8(s) == seq![DOT],
{
    assert(('.' as u32) == 46);
    assert(encode_utf8(s.drop_first()) =~= Seq::<u8>::empty());
    assert(encode_utf8(s) =~= encode_scalar('.' as u32) + encode_utf8(s.drop_first()));
    assert((46u32 & 0x7F) as u8 == 46u8) by (bit_vector);
    assert(encode_scalar(46u32) =~= seq![46u8]);
    assert(encode_utf8(s) =~= seq![DOT]);
}

/// Where `last_slash` points, a `/` stands.
proof fn lemma_last_slash_at(b: Seq<u8>)
    ensures
        last_slash(b) >= 0 ==> 0 <= last_slash(b) < b.len() && b[last_slash(b)] == SLASH,
    decreases b.len(),
{
    if b.len() > 0 && b.last() != SLASH {
        lemma_last_slash_at(b.drop_last());
    }
}

} // verus!
