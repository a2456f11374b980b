use vstd::prelude::*;

use crate::codec::{be_at, checksum, compute_checksum, read_be, width_bytes, ChecksumConfig, Width};

verus! {

/// A reply that does not have the expected shape.
#[derive(PartialEq, Eq, Structural, Debug, Clone, Copy)]
pub enum ProtocolError {
    /// Fewer bytes arrived than the reply holds.
    ShortReply,
    /// The device did not echo the command bytes it was sent.
    BadEcho,
    /// The device answered with a nonzero status word.
    BadStatus,
}

/// Why a session stopped. None of them is retried here.
#[derive(PartialEq, Eq, Structural, Debug, Clone, Copy)]
pub enum Error {
    /// No valid answer to the handshake probes within the attempt budget.
    HandshakeTimeout,
    /// A malformed or short reply.
    Protocol(ProtocolError),
    /// The device has a security feature enabled that forbids the download.
    SecurityPrecondition,
    /// The device refused an upload or reported another checksum.
    ChecksumMismatch,
    /// The link took fewer bytes than the upload holds, or the device
    /// expects another length.
    ShortWrite,
    /// The link failed below the protocol.
    TransportTimeout,
    /// No handshake at the new baud rate after the device switched to it.
    BaudSwitchFailed,
}

/// What distinguishes one framed protocol from another: the handshake's
/// probe bytes, how many times the first probe may go unanswered, and how
/// uploads are checksummed. Each probe byte is answered by its complement.
pub struct Protocol {
    pub magic: Vec<u8>,
    pub max_attempts: u32,
    pub checksum: ChecksumConfig,
}

impl Protocol {
    pub open spec fn wf(&self) -> bool {
        &&& 0 < self.magic@.len() <= 16
        &&& self.max_attempts >= 1
    }
}

/// Progress through the handshake: the probe being sent and how many times
/// the first probe has gone unanswered.
#[derive(PartialEq, Eq, Structural, Debug, Clone, Copy)]
pub struct Handshake {
    pub pos: usize,
    pub attempts: u32,
}

#[derive(PartialEq, Eq, Structural, Debug, Clone, Copy)]
pub enum HsStep {
    Continue(Handshake),
    Done,
    Failed,
}

pub open spec fn hs_start() -> Handshake {
    Handshake { pos: 0, attempts: 0 }
}

/// The answer a device gives to a probe byte.
pub open spec fn response_to(b: u8) -> u8 {
    !b
}

/// One step of the handshake on the reply to the current probe (`None`
/// when the read timed out). Only the first probe is retried; any other
/// deviation, or running out of attempts, fails.
pub open spec fn hs_next(magic: Seq<u8>, max_attempts: u32, h: Handshake, reply: Option<u8>) -> HsStep {
    if h.pos < magic.len() && reply == Some(response_to(magic[h.pos as int])) {
        if h.pos + 1 == magic.len() {
            HsStep::Done
        } else {
            HsStep::Continue(Handshake { pos: (h.pos + 1) as usize, attempts: h.attempts })
        }
    } else if h.pos == 0 && h.attempts + 1 < max_attempts {
        HsStep::Continue(Handshake { pos: 0, attempts: (h.attempts + 1) as u32 })
    } else {
        HsStep::Failed
    }
}

/// Where a handshake stands after a run of replies.
pub open spec fn hs_run(magic: Seq<u8>, max_attempts: u32, h: Handshake, replies: Seq<Option<u8>>) -> HsStep
    decreases replies.len(),
{
    if replies.len() == 0 {
        HsStep::Continue(h)
    } else {
        match hs_next(magic, max_attempts, h, replies[0]) {
            HsStep::Continue(h2) => hs_run(magic, max_attempts, h2, replies.drop_first()),
            other => other,
        }
    }
}

/// The replies of a device that answers every probe correctly.
pub open spec fn correct_replies(magic: Seq<u8>) -> Seq<Option<u8>> {
    magic.map_values(|b: u8| Some(response_to(b)))
}

proof fn lemma_correct_from(magic: Seq<u8>, max_attempts: u32, k: nat, attempts: u32)
    requires
        k < magic.len(),
        magic.len() <= usize::MAX,
    ensures
        hs_run(magic, max_attempts, Handshake { pos: k as usize, attempts }, correct_replies(magic).skip(k as int))
            == HsStep::Done,
    decreases magic.len() - k,
{
    let replies = correct_replies(magic).skip(k as int);
    assert(replies[0] == Some(response_to(magic[k as int])));
    if k + 1 < magic.len() {
        lemma_correct_from(magic, max_attempts, k + 1, attempts);
        assert(replies.drop_first() =~= correct_replies(magic).skip((k + 1) as int));
    }
}

/// A device that answers every probe correctly completes the handshake from
/// its start, whatever handshakes came before: a successful handshake can be
/// repeated at once.
pub proof fn lemma_handshake_repeatable(p: &Protocol)
    requires
        p.wf(),
    ensures
        hs_run(p.magic@, p.max_attempts, hs_start(), correct_replies(p.magic@)) == HsStep::Done,
{
    lemma_correct_from(p.magic@, p.max_attempts, 0, 0);
    assert(correct_replies(p.magic@).skip(0) =~= correct_replies(p.magic@));
}

impl Protocol {
    /// The byte to send for the current probe.
    pub fn probe(&self, h: Handshake) -> (r: u8)
        requires
            h.pos < self.magic@.len(),
        ensures
            r == self.magic@[h.pos as int],
    {
        self.magic[h.pos]
    }

    /// Advances the handshake on the reply to the current probe.
    pub fn handshake_step(&self, h: Handshake, reply: Option<u8>) -> (r: HsStep)
        requires
            self.wf(),
            h.pos < self.magic@.len(),
        ensures
            r == hs_next(self.magic@, self.max_attempts, h, reply),
            r matches HsStep::Continue(h2) ==> h2.pos < self.magic@.len(),
    {
        let expected: u8 = !self.magic[h.pos];
        let matched = match reply {
            Some(b) => b == expected,
            None => false,
        };
        if matched {
            if h.pos + 1 == self.magic.len() {
                HsStep::Done
            } else {
                HsStep::Continue(Handshake { pos: h.pos + 1, attempts: h.attempts })
            }
        } else if h.pos == 0 && h.attempts < self.max_attempts - 1 {
            HsStep::Continue(Handshake { pos: 0, attempts: h.attempts + 1 })
        } else {
            HsStep::Failed
        }
    }
}

/// How a framed reply is judged: the echo of what was sent, `body_len`
/// bytes of fields, then a two-byte status that is zero on success.
pub open spec fn frame_result(sent: Seq<u8>, reply: Seq<u8>, body_len: nat) -> Result<(), Error> {
    if reply.len() < sent.len() + body_len + 2 {
        Err(Error::Protocol(ProtocolError::ShortReply))
    } else if reply.subrange(0, sent.len() as int) != sent {
        Err(Error::Protocol(ProtocolError::BadEcho))
    } else if be_at(reply, (sent.len() + body_len) as int, 2) != 0 {
        Err(Error::Protocol(ProtocolError::BadStatus))
    } else {
        Ok(())
    }
}

/// Checks the echo and the status of a framed reply.
pub fn check_frame(sent: &[u8], reply: &[u8], body_len: usize) -> (r: Result<(), Error>)
    requires
        sent@.len() <= 64,
        body_len <= 64,
    ensures
        r == frame_result(sent@, reply@, body_len as nat),
{
    if reply.len() < sent.len() + body_len + 2 {
        return Err(Error::Protocol(ProtocolError::ShortReply));
    }
    let mut i: usize = 0;
    while i < sent.len()
        invariant
            i <= sent@.len(),
            reply@.len() >= sent@.len() + body_len + 2,
            forall|j: int| 0 <= j < i ==> reply@[j] == sent@[j],
        decreases sent@.len() - i,
    {
        if reply[i] != sent[i] {
            assert(reply@.subrange(0, sent@.len() as int)[i as int] != sent@[i as int]);
            assert(reply@.subrange(0, sent@.len() as int) != sent@);
            return Err(Error::Protocol(ProtocolError::BadEcho));
        }
        i = i + 1;
    }
    assert(reply@.subrange(0, sent@.len() as int) =~= sent@);
    let status = read_be(reply, sent.len() + body_len, 2);
    if status != 0 {
        return Err(Error::Protocol(ProtocolError::BadStatus));
    }
    Ok(())
}

/// Bytes written per chunk of an upload.
pub const CHUNK_SIZE: usize = 1024;

/// End of the chunk of an upload of `len` bytes that starts at `start`.
pub fn chunk_end(start: usize, len: usize) -> (r: usize)
    requires
        start < len,
    ensures
        start < r <= len,
        r == if len - start <= CHUNK_SIZE { len as int } else { start + CHUNK_SIZE },
{
    if len - start <= CHUNK_SIZE {
        len
    } else {
        start + CHUNK_SIZE
    }
}

/// How the acknowledgement of an upload header is judged: beyond the frame,
/// the four length bytes at `len_at` must come back as they were sent, or
/// the device expects another length than the payload has.
pub open spec fn header_result(sent: Seq<u8>, reply: Seq<u8>, len_at: int) -> Result<(), Error> {
    if reply.len() < sent.len() + 2 {
        Err(Error::Protocol(ProtocolError::ShortReply))
    } else if reply.subrange(len_at, len_at + 4) != sent.subrange(len_at, len_at + 4) {
        Err(Error::ShortWrite)
    } else {
        frame_result(sent, reply, 0)
    }
}

/// Checks the acknowledgement of an upload header.
pub fn check_header(sent: &[u8], reply: &[u8], len_at: usize) -> (r: Result<(), Error>)
    requires
        sent@.len() <= 64,
        len_at + 4 <= sent@.len(),
    ensures
        r == header_result(sent@, reply@, len_at as int),
{
    if reply.len() < sent.len() + 2 {
        return Err(Error::Protocol(ProtocolError::ShortReply));
    }
    let end: usize = len_at + 4;
    let mut i: usize = len_at;
    while i < end
        invariant
            end == len_at + 4,
            len_at <= i <= len_at + 4,
            len_at + 4 <= sent@.len(),
            reply@.len() >= sent@.len() + 2,
            forall|j: int| len_at <= j < i ==> reply@[j] == sent@[j],
        decreases len_at + 4 - i,
    {
        if reply[i] != sent[i] {
            assert(reply@.subrange(len_at as int, len_at + 4)[i - len_at] != sent@.subrange(
                len_at as int,
                len_at + 4,
            )[i - len_at]);
            return Err(Error::ShortWrite);
        }
        i = i + 1;
    }
    assert(reply@.subrange(len_at as int, len_at + 4) =~= sent@.subrange(len_at as int, len_at + 4));
    check_frame(sent, reply, 0)
}

/// How the end of an upload is judged. `acked_len` is the length the
/// device acknowledged and `written` what the link took; the reply holds the
/// device's checksum over `width` bytes, then a status word.
pub open spec fn upload_result(
    payload: Seq<u8>,
    acked_len: nat,
    written: nat,
    reply: Seq<u8>,
    cfg: ChecksumConfig,
) -> Result<u32, Error> {
    let w = width_bytes(cfg.width);
    if payload.len() != acked_len || written != payload.len() {
        Err(Error::ShortWrite)
    } else if reply.len() < w + 2 {
        Err(Error::Protocol(ProtocolError::ShortReply))
    } else if be_at(reply, w as int, 2) != 0 || be_at(reply, 0, w) != checksum(payload, cfg) as nat {
        Err(Error::ChecksumMismatch)
    } else {
        Ok(checksum(payload, cfg))
    }
}

/// A completed upload is accepted exactly when the checksum the device
/// reports equals the one computed over the payload that was sent.
pub proof fn lemma_upload_ok_iff_checksum(
    payload: Seq<u8>,
    written: nat,
    reply: Seq<u8>,
    cfg: ChecksumConfig,
)
    requires
        written == payload.len(),
        reply.len() >= width_bytes(cfg.width) + 2,
        be_at(reply, width_bytes(cfg.width) as int, 2) == 0,
    ensures
        upload_result(payload, payload.len(), written, reply, cfg) is Ok <==> be_at(
            reply,
            0,
            width_bytes(cfg.width),
        ) == checksum(payload, cfg) as nat,
{
}

/// Judges the end of an upload; on success returns the checksum.
pub fn check_upload(payload: &[u8], acked_len: u32, written: usize, reply: &[u8], cfg: ChecksumConfig) -> (r: Result<u32, Error>)
    ensures
        r == upload_result(payload@, acked_len as nat, written as nat, reply@, cfg),
{
    if payload.len() != acked_len as usize || written != payload.len() {
        return Err(Error::ShortWrite);
    }
    let w: usize = match cfg.width {
        Width::W8 => 1,
        Width::W16 => 2,
        Width::W32 => 4,
    };
    if reply.len() < w + 2 {
        return Err(Error::Protocol(ProtocolError::ShortReply));
    }
    let status = read_be(reply, w, 2);
    let reported = read_be(reply, 0, w);
    let local = compute_checksum(payload, cfg);
    if status != 0 || reported != local {
        return Err(Error::ChecksumMismatch);
    }
    Ok(local)
}

} // verus!
