//! Numbers that the operating system has chosen.

use vstd::prelude::*;

verus! {

/// Constants whose value differs between targets.
#[derive(Debug, Clone, Copy)]
pub struct HostConstants {
    /// The error code of an input or output error.
    pub eio: i32,
    /// All file status flags that are known by name, as one bit set.
    pub known_flags: i32,
    /// The file status flag for non-blocking operation.
    pub nonblock: i32,
}

/// The numbers that targets use for an input or output error.
pub open spec fn is_eio(code: i32) -> bool {
    code == 5 || code == 28 || code == 29 || code == 0x4000_0005 || code == -0x7fff_ffff
}

/// The numbers that targets use for the flag of non-blocking operation. Each
/// is a single bit.
pub open spec fn is_nonblock(flag: i32) -> bool {
    flag == 0x4 || flag == 0x8 || flag == 0x10 || flag == 0x80 || flag == 0x800 || flag == 0x4000
        || flag == 0x4_0000
}

impl HostConstants {
    /// Whether these can be the constants of the target that this program was
    /// built for.
    pub closed spec fn is_current(self) -> bool {
        call_ensures(eio, (), self.eio) && call_ensures(
            oflags,
            (),
            (self.known_flags, self.nonblock),
        )
    }

    /// The constants of the target that this program was built for. Which of
    /// the possible numbers they are depends on the target.
    pub fn current() -> (res: Self)
        ensures
            res.is_current(),
            is_eio(res.eio),
            is_nonblock(res.nonblock),
            res.known_flags & res.nonblock == res.nonblock,
            res.known_flags != res.nonblock,
    {
        let flags = oflags();
        let res = HostConstants { eio: eio(), known_flags: flags.0, nonblock: flags.1 };
        proof {
            current_constants_are_the_given_ones(res);
        }
        res
    }
}

/// `libc::EIO`. It is 5 on most targets, and on the others one of the numbers
/// listed. Which of them it is depends on the target.
#[verifier::external_body]
fn eio() -> (res: i32)
    ensures
        is_eio(res),
{
    libc::EIO
}

/// `nix::fcntl::OFlag::all` and `nix::fcntl::OFlag::O_NONBLOCK`, as bits. The
/// second is one of the numbers listed; the first has every flag that `nix`
/// names, so the second among them, and others beside it. Which flags these are,
/// and which bits, depends on the target.
#[verifier::external_body]
fn oflags() -> (res: (i32, i32))
    ensures
        is_nonblock(res.1),
        res.0 & res.1 == res.1,
        res.0 != res.1,
{
    (nix::fcntl::OFlag::all().bits(), nix::fcntl::OFlag::O_NONBLOCK.bits())
}

/// The constants that [`HostConstants::is_current`] speaks of are those that the
/// system's headers give.
proof fn current_constants_are_the_given_ones(host: HostConstants)
    ensures
        host.is_current() <==> call_ensures(eio, (), host.eio) && call_ensures(
            oflags,
            (),
            (host.known_flags, host.nonblock),
        ),
{
}

} // verus!
