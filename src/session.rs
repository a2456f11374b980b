use vstd::prelude::*;

use crate::codec::ChecksumConfig;
use crate::protocol::{upload_result, Error};
use crate::bl2::handshake_error;

verus! {

/// Banner BL2 prints before it enters its binary handshake.
pub const BL2_READY_BANNER: &'static str = "Starting UART download handshake";
/// Banner BL2 prints once it has taken the firmware image package.
pub const FIP_RECEIVED_BANNER: &'static str = "Received FIP";

/// What a session asks its driver to do next. After each action but the
/// last two, the driver hands back how many payload bytes it wrote and the
/// bytes it read.
#[derive(PartialEq, Eq, Debug)]
pub enum Action {
    /// Write these bytes, then read this many bytes back.
    Exchange(Vec<u8>, usize),
    /// Write the payload with this index in chunks, then read this many bytes back.
    Upload(usize, usize),
    /// Switch the driver's own link to this baud rate; nothing is written or read.
    SwitchBaud(u32),
    /// Write these bytes and read nothing: the device no longer answers.
    Send(Vec<u8>),
    /// The session is over, with this outcome.
    Finished(Result<(), Error>),
}

/// Whether `a` writes exactly `tx` and then reads `n` bytes.
pub open spec fn is_exchange(a: Action, tx: Seq<u8>, n: usize) -> bool {
    match a {
        Action::Exchange(t, m) => t@ == tx && m == n,
        _ => false,
    }
}

/// Whether `a` writes exactly `tx` and reads nothing.
pub open spec fn is_send(a: Action, tx: Seq<u8>) -> bool {
    match a {
        Action::Send(t) => t@ == tx,
        _ => false,
    }
}

/// The byte a one-byte read brought, if any.
pub open spec fn reply_byte(reply: Seq<u8>) -> Option<u8> {
    if reply.len() >= 1 {
        Some(reply[0])
    } else {
        None
    }
}

/// Whether `needle` occurs in `hay` at `i`.
pub open spec fn occurs_at(hay: Seq<u8>, needle: Seq<u8>, i: int) -> bool {
    0 <= i && i + needle.len() <= hay.len() && hay.subrange(i, i + needle.len()) == needle
}

pub open spec fn contains(hay: Seq<u8>, needle: Seq<u8>) -> bool {
    exists|i: int| occurs_at(hay, needle, i)
}

fn occurs_at_exec(hay: &[u8], needle: &[u8], i: usize) -> (r: bool)
    requires
        i + needle@.len() <= hay@.len(),
    ensures
        r == occurs_at(hay@, needle@, i as int),
{
    let hay_len = hay.len();
    let mut k: usize = 0;
    while k < needle.len()
        invariant
            hay_len == hay@.len(),
            k <= needle@.len(),
            i + needle@.len() <= hay@.len(),
            forall|j: int| 0 <= j < k ==> hay@[i + j] == needle@[j],
        decreases needle@.len() - k,
    {
        if hay[i + k] != needle[k] {
            assert(hay@.subrange(i as int, i + needle@.len())[k as int] != needle@[k as int]);
            return false;
        }
        k = k + 1;
    }
    assert(hay@.subrange(i as int, i + needle@.len()) =~= needle@);
    true
}

/// Whether a line read from the device holds the banner `pattern`.
pub fn banner_seen(line: &[u8], pattern: &[u8]) -> (r: bool)
    ensures
        r == contains(line@, pattern@),
{
    if pattern.len() > line.len() {
        assert forall|i: int| !occurs_at(line@, pattern@, i) by {}
        return false;
    }
    let last = line.len() - pattern.len();
    let mut i: usize = 0;
    while i <= last
        invariant
            last + pattern@.len() == line@.len(),
            forall|j: int| 0 <= j < i ==> !occurs_at(line@, pattern@, j),
        decreases last + 1 - i,
    {
        if occurs_at_exec(line, pattern, i) {
            return true;
        }
        if i == last {
            assert forall|j: int| !occurs_at(line@, pattern@, j) by {
                if 0 <= j && j + pattern@.len() <= line@.len() {
                    assert(j <= i);
                }
            }
            return false;
        }
        i = i + 1;
    }
    false
}

/// Where execution starts after the BootROM session: at the second payload
/// when there is one, else at the primary one.
pub fn jump_target(load_addr: u32, second_load_addr: Option<u32>) -> (r: u32)
    ensures
        r == match second_load_addr {
            Some(a) => a,
            None => load_addr,
        },
{
    match second_load_addr {
        Some(a) => a,
        None => load_addr,
    }
}

/// A failed handshake after a baud-rate change reports `BaudSwitchFailed`,
/// never the `HandshakeTimeout` of an ordinary handshake.
pub proof fn lemma_baud_switch_failure_distinct()
    ensures
        handshake_error(true) == Error::BaudSwitchFailed,
        handshake_error(false) == Error::HandshakeTimeout,
        handshake_error(true) != handshake_error(false),
{
}

/// An upload whose payload length differs from the length the device
/// acknowledged fails with `ShortWrite`, whatever the device answers.
pub proof fn lemma_length_disagreement(
    payload: Seq<u8>,
    acked_len: nat,
    written: nat,
    reply: Seq<u8>,
    cfg: ChecksumConfig,
)
    requires
        payload.len() != acked_len,
    ensures
        upload_result(payload, acked_len, written, reply, cfg) == Err::<u32, Error>(Error::ShortWrite),
{
}

} // verus!
