//! The settings of the server, and the place of its socket.

use crate::text::{contains, decimal_text, replace};
use vstd::prelude::*;

verus! {

use crate::text::{
    decimal, decimal_is_digits, decimal_tells_numbers_apart, disjoint, first_occurrence_is_replaced,
    nothing_to_replace, occurs, replaced, replacements_are_told_apart, replacing_leaves_nothing,
    stands_at,
};

/// The command that launches MATLAB, unless another is given.
pub const DEFAULT_MATLAB_CMD: &'static str = "matlab -nodesktop -nosplash";

/// The path of the socket, unless another is given.
pub const DEFAULT_SOCKET: &'static str = "/tmp/vim-matlab-{uid}.sock";

/// What the server was asked to do.
#[derive(Debug, Clone)]
pub struct Args {
    /// Command used to launch MATLAB.
    pub matlab_cmd: String,
    /// Path to the Unix domain socket.
    ///
    /// The literal `{uid}` is replaced with the current user's UID.
    pub socket: String,
}

impl Default for Args {
    fn default() -> (res: Self)
        ensures
            res.matlab_cmd@ == DEFAULT_MATLAB_CMD@,
            res.socket@ == DEFAULT_SOCKET@,
            res.matlab_cmd@ == "matlab -nodesktop -nosplash"@,
            res.socket@ == "/tmp/vim-matlab-{uid}.sock"@,
    {
        Args { matlab_cmd: DEFAULT_MATLAB_CMD.to_owned(), socket: DEFAULT_SOCKET.to_owned() }
    }
}

/// The path of the socket of the user `uid`: `path` with the user's number in
/// the place of each `{uid}`.
pub open spec fn socket_path(path: Seq<char>, uid: u32) -> Seq<char> {
    replaced(path, "{uid}"@, decimal(uid as nat))
}

/// Puts a user's number into the path of a socket.
pub fn socket_path_of(path: &str, uid: u32) -> (res: String)
    ensures
        res@ == socket_path(path@, uid),
        (forall|i: int| 0 <= i <= path@.len() - 5 ==> #[trigger] path@.subrange(i, i + 5) != "{uid}"@)
            ==> res@ == path@,
        forall|before: Seq<char>, after: Seq<char>|
            path@ == #[trigger] (before + "{uid}"@ + after) && (forall|i: int|
                0 <= i < before.len() ==> #[trigger] path@.subrange(i, i + 5) != "{uid}"@) ==> res@
                == before + decimal(uid as nat) + socket_path(after, uid),
{
    proof {
        reveal_strlit("{uid}");
        if forall|i: int| 0 <= i <= path@.len() - 5 ==> #[trigger] path@.subrange(i, i + 5) != "{uid}"@ {
            path_without_placeholder_is_kept(path@, uid);
        }
        assert forall|before: Seq<char>, after: Seq<char>|
            path@ == #[trigger] (before + "{uid}"@ + after) && (forall|i: int|
                0 <= i < before.len() ==> #[trigger] path@.subrange(i, i + 5)
                    != "{uid}"@) implies socket_path(path@, uid) == before + decimal(uid as nat)
            + socket_path(after, uid) by {
            placeholders_are_filled_in_turn(before, after, uid);
        }
    }
    let number = decimal_text(uid as u64);
    replace(path, "{uid}", number.as_str())
}

/// Whether `uid` can be the number of the user who runs the program.
pub closed spec fn is_current_user(uid: u32) -> bool {
    call_ensures(current_uid, (), uid)
}

/// Puts the current user's number into the path of a socket, so that each user
/// gets a socket of their own.
pub fn resolve_socket_path(path: &str) -> (res: String)
    ensures
        !occurs(path@, "{uid}"@) ==> res@ == path@,
        occurs(path@, "{uid}"@) ==> exists|uid: u32| #[trigger]
            is_current_user(uid) && res@ == socket_path(path@, uid),
        (forall|i: int| 0 <= i <= path@.len() - 5 ==> #[trigger] path@.subrange(i, i + 5) != "{uid}"@)
            ==> res@ == path@,
        (exists|i: int| 0 <= i <= path@.len() - 5 && #[trigger] path@.subrange(i, i + 5) == "{uid}"@)
            ==> exists|uid: u32| #[trigger]
            is_current_user(uid) && res@ == socket_path(path@, uid),
{
    proof {
        reveal_strlit("{uid}");
    }
    if contains(path, "{uid}") {
        let uid: u32 = current_uid();
        proof {
            current_user_is_the_named_one(uid);
        }
        socket_path_of(path, uid)
    } else {
        assert forall|i: int| 0 <= i <= path@.len() - 5 implies #[trigger] path@.subrange(i, i + 5)
            != "{uid}"@ by {
            assert(path@.subrange(i, i + "{uid}"@.len()) != "{uid}"@);
        }
        path.to_owned()
    }
}

/// `nix::unistd::getuid`, as a number: the real user ID of the process. It
/// depends on who runs the program, so nothing is said of the number.
#[verifier::external_body]
fn current_uid() -> (res: u32) {
    nix::unistd::getuid().as_raw()
}

/// The characters of the placeholder are not digits.
proof fn placeholder_has_no_digit(uid: u32)
    ensures
        "{uid}"@.len() > 0,
        decimal(uid as nat).len() > 0,
        disjoint("{uid}"@, decimal(uid as nat)),
{
    reveal_strlit("{uid}");
    decimal_is_digits(uid as nat);
}

/// Each user gets a socket of their own: where the path has a placeholder, no
/// two users have the same socket.
pub proof fn users_have_different_sockets(path: Seq<char>, a: u32, b: u32)
    requires
        occurs(path, "{uid}"@),
        socket_path(path, a) == socket_path(path, b),
    ensures
        a == b,
{
    placeholder_has_no_digit(a);
    replacements_are_told_apart(path, "{uid}"@, decimal(a as nat), decimal(b as nat));
    decimal_tells_numbers_apart(a as nat, b as nat);
}

/// A path without a placeholder is the same for every user.
pub proof fn plain_path_is_kept(path: Seq<char>, uid: u32)
    requires
        !occurs(path, "{uid}"@),
    ensures
        socket_path(path, uid) == path,
{
    nothing_to_replace(path, "{uid}"@, decimal(uid as nat));
}

/// A path in which `{uid}` can be read nowhere is the same for every user.
pub proof fn path_without_placeholder_is_kept(path: Seq<char>, uid: u32)
    requires
        forall|i: int| 0 <= i <= path.len() - 5 ==> #[trigger] path.subrange(i, i + 5) != "{uid}"@,
    ensures
        socket_path(path, uid) == path,
{
    reveal_strlit("{uid}");
    assert forall|i: int| !stands_at(path, "{uid}"@, i) by {
        if 0 <= i <= path.len() - 5 {
            assert(path.subrange(i, i + 5) != "{uid}"@);
        }
    }
    plain_path_is_kept(path, uid);
}

/// The first `{uid}` of a path gives way to the user's number. What stands
/// before it is kept as it is, however long it is, and what stands behind it is
/// resolved for itself.
pub proof fn placeholders_are_filled_in_turn(before: Seq<char>, after: Seq<char>, uid: u32)
    requires
        forall|i: int|
            0 <= i < before.len() ==> #[trigger] (before + "{uid}"@ + after).subrange(i, i + 5)
                != "{uid}"@,
    ensures
        socket_path(before + "{uid}"@ + after, uid) == before + decimal(uid as nat) + socket_path(
            after,
            uid,
        ),
{
    reveal_strlit("{uid}");
    first_occurrence_is_replaced(before, "{uid}"@, after, decimal(uid as nat));
}

/// The users that [`is_current_user`] speaks of are those that the system names.
proof fn current_user_is_the_named_one(uid: u32)
    ensures
        is_current_user(uid) <==> call_ensures(current_uid, (), uid),
{
}

/// No placeholder is left in a resolved path, so resolving it again, be it by
/// another user, changes nothing.
pub proof fn resolved_path_is_final(path: Seq<char>, uid: u32, other: u32)
    ensures
        !occurs(socket_path(path, uid), "{uid}"@),
        socket_path(socket_path(path, uid), other) == socket_path(path, uid),
{
    placeholder_has_no_digit(uid);
    replacing_leaves_nothing(path, "{uid}"@, decimal(uid as nat));
    plain_path_is_kept(socket_path(path, uid), other);
}

} // verus!
