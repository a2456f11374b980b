use vstd::prelude::*;

use crate::codec::{be32, be_at, command_bytes, encode_command, read_be, ByteOrder, ChecksumConfig, Width};
use crate::protocol::{
    check_frame, check_header, check_upload, frame_result, header_result, hs_next, hs_start,
    upload_result, Error, Handshake, HsStep, Protocol,
};

verus! {

pub const CMD_VERSION: u8 = 0x01;
pub const CMD_BAUDRATE: u8 = 0x02;
pub const CMD_SEND_FIP: u8 = 0x03;
pub const CMD_GO: u8 = 0x04;

/// How many times the first handshake probe may go unanswered.
pub const BL2_MAX_ATTEMPTS: u32 = 64;

/// Bytes of the reply to the version query: echo, version, status.
pub const VERSION_REPLY_LEN: usize = 7;
/// Bytes of the acknowledgement of a baud-rate change: its echo and a status.
pub const BAUDRATE_ACK_LEN: usize = 7;
/// Bytes of the acknowledgement of an upload header: its echo and a status.
pub const SEND_FIP_ACK_LEN: usize = 7;
/// Bytes of the reply after an upload: checksum and status.
pub const SEND_FIP_REPLY_LEN: usize = 6;

pub open spec fn bl2_magic() -> Seq<u8> {
    seq![0x6du8, 0x75u8, 0x64u8, 0x6cu8]
}

pub open spec fn bl2_checksum() -> ChecksumConfig {
    ChecksumConfig { width: Width::W32, order: ByteOrder::Little }
}

/// The second-stage protocol: probes `mudl`, 32-bit little-endian XOR checksum.
pub fn bl2_protocol() -> (p: Protocol)
    ensures
        p.wf(),
        p.magic@ == bl2_magic(),
        p.max_attempts == BL2_MAX_ATTEMPTS,
        p.checksum == bl2_checksum(),
{
    let magic: Vec<u8> = vec![0x6du8, 0x75u8, 0x64u8, 0x6cu8];
    assert(magic@ =~= bl2_magic());
    Protocol {
        magic,
        max_attempts: BL2_MAX_ATTEMPTS,
        checksum: ChecksumConfig { width: Width::W32, order: ByteOrder::Little },
    }
}

#[derive(PartialEq, Eq, Structural, Debug, Clone, Copy)]
pub enum Bl2State {
    Idle,
    Handshaking,
    Ready,
    VersionQueried,
    BaudPending,
    BaudAcked,
    Resyncing,
    BaudSwitched,
    AwaitingAck,
    Uploading,
    Uploaded,
    Executing,
}

/// States in which the device answers queries and takes an upload.
pub open spec fn bl2_ready(s: Bl2State) -> bool {
    s == Bl2State::Ready || s == Bl2State::VersionQueried || s == Bl2State::BaudSwitched
}

/// States in which the device takes a baud-rate change.
pub open spec fn can_switch(s: Bl2State) -> bool {
    s == Bl2State::Ready || s == Bl2State::VersionQueried
}

/// The state a handshake completes into: after a baud-rate change it
/// confirms the switch.
pub open spec fn handshake_target(resync: bool) -> Bl2State {
    if resync {
        Bl2State::BaudSwitched
    } else {
        Bl2State::Ready
    }
}

/// The error a failed handshake reports: after a baud-rate change it is the
/// switch that failed.
pub open spec fn handshake_error(resync: bool) -> Error {
    if resync {
        Error::BaudSwitchFailed
    } else {
        Error::HandshakeTimeout
    }
}

/// A client of the second-stage download protocol. It holds no transport:
/// each step returns the bytes to write and judges the bytes read back.
pub struct Bl2 {
    proto: Protocol,
    state: Bl2State,
    hs: Handshake,
    sent: Vec<u8>,
    acked_len: u32,
}

impl Bl2 {
    pub closed spec fn state(&self) -> Bl2State {
        self.state
    }

    pub closed spec fn handshake(&self) -> Handshake {
        self.hs
    }

    /// The command bytes last sent that await an acknowledgement.
    pub closed spec fn sent(&self) -> Seq<u8> {
        self.sent@
    }

    /// The payload length the device acknowledged for the current upload.
    pub closed spec fn acked_len(&self) -> nat {
        self.acked_len as nat
    }

    pub closed spec fn wf(&self) -> bool {
        &&& self.proto.wf()
        &&& self.proto.magic@ == bl2_magic()
        &&& self.proto.max_attempts == BL2_MAX_ATTEMPTS
        &&& self.proto.checksum == bl2_checksum()
        &&& self.hs.pos < 4
        &&& self.sent@.len() == 5
    }

    pub fn new() -> (r: Bl2)
        ensures
            r.wf(),
            r.state() == Bl2State::Idle,
    {
        Bl2 {
            proto: bl2_protocol(),
            state: Bl2State::Idle,
            hs: Handshake { pos: 0, attempts: 0 },
            sent: vec![0u8; 5],
            acked_len: 0,
        }
    }

    pub fn state_now(&self) -> (r: Bl2State)
        ensures
            r == self.state(),
    {
        self.state
    }

    /// Starts a handshake from its first probe. After an acknowledged
    /// baud-rate change (and the caller's own switch) it is the handshake
    /// that confirms the new rate.
    pub fn begin_handshake(&mut self)
        requires
            old(self).wf(),
            old(self).state() != Bl2State::Executing,
        ensures
            final(self).wf(),
            final(self).state() == if old(self).state() == Bl2State::BaudAcked {
                Bl2State::Resyncing
            } else {
                Bl2State::Handshaking
            },
            final(self).handshake() == hs_start(),
    {
        if self.state == Bl2State::BaudAcked {
            self.state = Bl2State::Resyncing;
        } else {
            self.state = Bl2State::Handshaking;
        }
        self.hs = Handshake { pos: 0, attempts: 0 };
    }

    /// The byte to send next during the handshake.
    pub fn handshake_probe(&self) -> (r: u8)
        requires
            self.wf(),
            self.state() == Bl2State::Handshaking || self.state() == Bl2State::Resyncing,
        ensures
            r == bl2_magic()[self.handshake().pos as int],
    {
        self.proto.probe(self.hs)
    }

    /// Takes the reply to the last probe (`None` when the read timed out).
    /// Returns `Ok(true)` once the handshake is complete, `Ok(false)` while
    /// more probes are due.
    pub fn handshake_reply(&mut self, reply: Option<u8>) -> (r: Result<bool, Error>)
        requires
            old(self).wf(),
            old(self).state() == Bl2State::Handshaking || old(self).state() == Bl2State::Resyncing,
        ensures
            final(self).wf(),
            ({
                let resync = old(self).state() == Bl2State::Resyncing;
                match hs_next(bl2_magic(), BL2_MAX_ATTEMPTS, old(self).handshake(), reply) {
                    HsStep::Done => r == Ok::<bool, Error>(true) && final(self).state() == handshake_target(
                        resync,
                    ),
                    HsStep::Continue(h) => r == Ok::<bool, Error>(false) && final(self).state() == old(
                        self,
                    ).state() && final(self).handshake() == h,
                    HsStep::Failed => r == Err::<bool, Error>(handshake_error(resync)) && final(self).state()
                        == Bl2State::Idle,
                }
            }),
    {
        let resync = self.state == Bl2State::Resyncing;
        match self.proto.handshake_step(self.hs, reply) {
            HsStep::Done => {
                if resync {
                    self.state = Bl2State::BaudSwitched;
                } else {
                    self.state = Bl2State::Ready;
                }
                Ok(true)
            },
            HsStep::Continue(h) => {
                self.hs = h;
                Ok(false)
            },
            HsStep::Failed => {
                self.state = Bl2State::Idle;
                if resync {
                    Err(Error::BaudSwitchFailed)
                } else {
                    Err(Error::HandshakeTimeout)
                }
            },
        }
    }

    /// The version query; its reply takes `VERSION_REPLY_LEN` bytes.
    pub fn version_request(&self) -> (r: Vec<u8>)
        requires
            self.wf(),
            bl2_ready(self.state()),
        ensures
            r@ == seq![CMD_VERSION],
    {
        let r = encode_command(CMD_VERSION, &[]);
        assert(r@ =~= seq![CMD_VERSION]);
        r
    }

    /// Judges the reply to the version query and returns the version.
    pub fn finish_version(&mut self, reply: &[u8]) -> (r: Result<u32, Error>)
        requires
            old(self).wf(),
            bl2_ready(old(self).state()),
        ensures
            final(self).wf(),
            r == match frame_result(seq![CMD_VERSION], reply@, 4) {
                Ok(_) => Ok::<u32, Error>(be_at(reply@, 1, 4) as u32),
                Err(e) => Err(e),
            },
            r is Ok ==> final(self).state() == if old(self).state() == Bl2State::Ready {
                Bl2State::VersionQueried
            } else {
                old(self).state()
            },
            r is Err ==> final(self).state() == Bl2State::Idle,
    {
        let sent: Vec<u8> = vec![CMD_VERSION];
        assert(sent@ =~= seq![CMD_VERSION]);
        match check_frame(sent.as_slice(), reply, 4) {
            Ok(()) => {
                if self.state == Bl2State::Ready {
                    self.state = Bl2State::VersionQueried;
                }
                Ok(read_be(reply, 1, 4))
            },
            Err(e) => {
                self.state = Bl2State::Idle;
                Err(e)
            },
        }
    }

    /// The command to switch the device's UART to `rate`; its
    /// acknowledgement takes `BAUDRATE_ACK_LEN` bytes.
    pub fn set_baudrate_request(&mut self, rate: u32) -> (r: Vec<u8>)
        requires
            old(self).wf(),
            can_switch(old(self).state()),
        ensures
            final(self).wf(),
            r@ == seq![CMD_BAUDRATE] + be32(rate),
            final(self).sent() == r@,
            final(self).state() == Bl2State::BaudPending,
    {
        let args: [u32; 1] = [rate];
        let r = encode_command(CMD_BAUDRATE, &args);
        proof {
            assert(args@ =~= seq![rate]);
            assert(seq![rate].drop_last() =~= Seq::<u32>::empty());
            assert(command_bytes(CMD_BAUDRATE, Seq::<u32>::empty()) == seq![CMD_BAUDRATE]);
        }
        self.sent = r.clone();
        self.state = Bl2State::BaudPending;
        r
    }

    /// Judges the acknowledgement of the baud-rate change. After it the
    /// caller switches its own transport, then runs a handshake.
    pub fn finish_set_baudrate(&mut self, reply: &[u8]) -> (r: Result<(), Error>)
        requires
            old(self).wf(),
            old(self).state() == Bl2State::BaudPending,
        ensures
            final(self).wf(),
            r == frame_result(old(self).sent(), reply@, 0),
            r is Ok ==> final(self).state() == Bl2State::BaudAcked,
            r is Err ==> final(self).state() == Bl2State::Idle,
    {
        let res = check_frame(self.sent.as_slice(), reply, 0);
        if res.is_ok() {
            self.state = Bl2State::BaudAcked;
        } else {
            self.state = Bl2State::Idle;
        }
        res
    }

    /// The header of an upload of `payload`: command and length. Its
    /// acknowledgement takes `SEND_FIP_ACK_LEN` bytes.
    pub fn send_fip_request(&mut self, payload: &[u8]) -> (r: Vec<u8>)
        requires
            old(self).wf(),
            bl2_ready(old(self).state()),
            payload@.len() <= u32::MAX,
        ensures
            final(self).wf(),
            r@ == seq![CMD_SEND_FIP] + be32(payload@.len() as u32),
            final(self).sent() == r@,
            final(self).state() == Bl2State::AwaitingAck,
    {
        let args: [u32; 1] = [payload.len() as u32];
        let r = encode_command(CMD_SEND_FIP, &args);
        proof {
            assert(args@ =~= seq![payload@.len() as u32]);
            assert(seq![payload@.len() as u32].drop_last() =~= Seq::<u32>::empty());
            assert(command_bytes(CMD_SEND_FIP, Seq::<u32>::empty()) == seq![CMD_SEND_FIP]);
        }
        self.sent = r.clone();
        self.state = Bl2State::AwaitingAck;
        r
    }

    /// Judges the acknowledgement of the upload header. The echoed length
    /// disagreeing with the one sent is a `ShortWrite`.
    pub fn finish_send_fip_ack(&mut self, reply: &[u8]) -> (r: Result<(), Error>)
        requires
            old(self).wf(),
            old(self).state() == Bl2State::AwaitingAck,
        ensures
            final(self).wf(),
            r == header_result(old(self).sent(), reply@, 1),
            r is Ok ==> final(self).state() == Bl2State::Uploading && final(self).acked_len() == be_at(
                old(self).sent(),
                1,
                4,
            ),
            r is Err ==> final(self).state() == Bl2State::Idle,
    {
        let res = check_header(self.sent.as_slice(), reply, 1);
        match res {
            Ok(()) => {
                self.acked_len = read_be(self.sent.as_slice(), 1, 4);
                self.state = Bl2State::Uploading;
            },
            Err(_) => {
                self.state = Bl2State::Idle;
            },
        }
        res
    }

    /// Judges the end of an upload: `written` is how many payload bytes the
    /// link took, `reply` the device's checksum and status. Returns the checksum.
    pub fn finish_send_fip(&mut self, payload: &[u8], written: usize, reply: &[u8]) -> (r: Result<u32, Error>)
        requires
            old(self).wf(),
            old(self).state() == Bl2State::Uploading,
        ensures
            final(self).wf(),
            r == upload_result(payload@, old(self).acked_len(), written as nat, reply@, bl2_checksum()),
            r is Ok ==> final(self).state() == Bl2State::Uploaded,
            r is Err ==> final(self).state() == Bl2State::Idle,
    {
        let res = check_upload(payload, self.acked_len, written, reply, self.proto.checksum);
        if res.is_ok() {
            self.state = Bl2State::Uploaded;
        } else {
            self.state = Bl2State::Idle;
        }
        res
    }

    /// The command to run the uploaded image. Nothing is read back; the
    /// client is done.
    pub fn go_request(&mut self) -> (r: Vec<u8>)
        requires
            old(self).wf(),
            old(self).state() == Bl2State::Uploaded,
        ensures
            final(self).wf(),
            r@ == seq![CMD_GO],
            final(self).state() == Bl2State::Executing,
    {
        let r = encode_command(CMD_GO, &[]);
        assert(r@ =~= seq![CMD_GO]);
        self.state = Bl2State::Executing;
        r
    }
}

} // verus!
