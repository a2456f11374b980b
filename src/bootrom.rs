use vstd::prelude::*;

use crate::codec::{be32, be_at, command_bytes, encode_command, read_be, ByteOrder, ChecksumConfig, Width};
use crate::protocol::{
    check_frame, check_header, check_upload, frame_result, header_result, hs_next, hs_start,
    upload_result, Error, Handshake, HsStep, Protocol,
};

verus! {

pub const CMD_GET_HW_SW_VER: u8 = 0xfc;
pub const CMD_GET_HW_CODE: u8 = 0xfd;
pub const CMD_GET_TARGET_CONFIG: u8 = 0xd8;
pub const CMD_SEND_DA: u8 = 0xd7;
pub const CMD_JUMP_DA: u8 = 0xd5;

/// How many times the first handshake probe may go unanswered.
pub const BROM_MAX_ATTEMPTS: u32 = 64;

/// Bytes of the reply to the hardware-code query: echo, code, status.
pub const HW_CODE_REPLY_LEN: usize = 5;
/// Bytes of the reply to the hardware-dictionary query: echo, three fields, status.
pub const HW_DICT_REPLY_LEN: usize = 9;
/// Bytes of the reply to the target-configuration query: echo, bitfield, status.
pub const TARGET_CONFIG_REPLY_LEN: usize = 7;
/// Bytes of the acknowledgement of an upload header: its echo and a status.
pub const SEND_DA_ACK_LEN: usize = 15;
/// Bytes of the reply after an upload: checksum and status.
pub const SEND_DA_REPLY_LEN: usize = 4;

pub open spec fn brom_magic() -> Seq<u8> {
    seq![0xa0u8, 0x0au8, 0x50u8, 0x05u8]
}

pub open spec fn brom_checksum() -> ChecksumConfig {
    ChecksumConfig { width: Width::W16, order: ByteOrder::Little }
}

/// The BootROM's protocol: probes `a0 0a 50 05`, 16-bit little-endian XOR checksum.
pub fn bootrom_protocol() -> (p: Protocol)
    ensures
        p.wf(),
        p.magic@ == brom_magic(),
        p.max_attempts == BROM_MAX_ATTEMPTS,
        p.checksum == brom_checksum(),
{
    let magic: Vec<u8> = vec![0xa0u8, 0x0au8, 0x50u8, 0x05u8];
    assert(magic@ =~= brom_magic());
    Protocol {
        magic,
        max_attempts: BROM_MAX_ATTEMPTS,
        checksum: ChecksumConfig { width: Width::W16, order: ByteOrder::Little },
    }
}

/// Security features reported by the BootROM; any of them set forbids the download.
#[derive(PartialEq, Eq, Structural, Debug, Clone, Copy)]
pub struct SecurityConfig {
    pub secure_boot: bool,
    pub sla_enabled: bool,
    pub daa_enabled: bool,
}

/// Decodes the target-configuration bitfield: bit 0 is secure boot, bit 1
/// serial link authorization, bit 2 download agent authorization.
pub open spec fn security_of(config: u32) -> SecurityConfig {
    SecurityConfig {
        secure_boot: config % 2 == 1,
        sla_enabled: (config / 2) % 2 == 1,
        daa_enabled: (config / 4) % 2 == 1,
    }
}

pub open spec fn flag(b: bool) -> nat {
    if b {
        1
    } else {
        0
    }
}

pub fn decode_target_config(config: u32) -> (r: SecurityConfig)
    ensures
        r == security_of(config),
{
    SecurityConfig {
        secure_boot: config % 2 == 1,
        sla_enabled: (config / 2) % 2 == 1,
        daa_enabled: (config / 4) % 2 == 1,
    }
}

/// Each of the eight three-bit values decodes to its own combination of
/// flags, from which it is read back.
pub proof fn lemma_target_config_bits(config: u32)
    requires
        config < 8,
    ensures
        config == flag(security_of(config).secure_boot) + 2 * flag(security_of(config).sla_enabled) + 4
            * flag(security_of(config).daa_enabled),
{
}

/// Whether the download may go on: it may only when no security feature is set.
pub open spec fn security_result(c: SecurityConfig) -> Result<(), Error> {
    if c.secure_boot || c.sla_enabled || c.daa_enabled {
        Err(Error::SecurityPrecondition)
    } else {
        Ok(())
    }
}

pub fn check_security(c: SecurityConfig) -> (r: Result<(), Error>)
    ensures
        r == security_result(c),
{
    if c.secure_boot || c.sla_enabled || c.daa_enabled {
        Err(Error::SecurityPrecondition)
    } else {
        Ok(())
    }
}

#[derive(PartialEq, Eq, Structural, Debug, Clone, Copy)]
pub enum BromState {
    Idle,
    Handshaking,
    Handshaken,
    Queried,
    SecurityChecked,
    AwaitingAck,
    Uploading,
    Uploaded,
    Jumped,
}

/// States in which the device answers queries.
pub open spec fn can_query(s: BromState) -> bool {
    s == BromState::Handshaken || s == BromState::Queried || s == BromState::SecurityChecked
        || s == BromState::Uploaded
}

/// States from which an upload may start.
pub open spec fn can_upload(s: BromState) -> bool {
    s == BromState::SecurityChecked || s == BromState::Uploaded
}

/// The next state after a query: on failure the session starts over.
pub open spec fn after_query(s: BromState, ok: bool, reached: BromState) -> BromState {
    if !ok {
        BromState::Idle
    } else if s == BromState::Uploaded || s == BromState::SecurityChecked {
        s
    } else {
        reached
    }
}

/// A client of the BootROM download protocol. It holds no transport: each
/// step returns the bytes to write and judges the bytes read back.
pub struct BootRom {
    proto: Protocol,
    state: BromState,
    hs: Handshake,
    header: Vec<u8>,
    acked_len: u32,
}

impl BootRom {
    pub closed spec fn state(&self) -> BromState {
        self.state
    }

    pub closed spec fn handshake(&self) -> Handshake {
        self.hs
    }

    /// The upload header last sent.
    pub closed spec fn header(&self) -> Seq<u8> {
        self.header@
    }

    /// The payload length the device acknowledged for the current upload.
    pub closed spec fn acked_len(&self) -> nat {
        self.acked_len as nat
    }

    pub closed spec fn wf(&self) -> bool {
        &&& self.proto.wf()
        &&& self.proto.magic@ == brom_magic()
        &&& self.proto.max_attempts == BROM_MAX_ATTEMPTS
        &&& self.proto.checksum == brom_checksum()
        &&& self.hs.pos < 4
        &&& self.header@.len() == 13
    }

    pub fn new() -> (r: BootRom)
        ensures
            r.wf(),
            r.state() == BromState::Idle,
    {
        BootRom {
            proto: bootrom_protocol(),
            state: BromState::Idle,
            hs: Handshake { pos: 0, attempts: 0 },
            header: vec![0u8; 13],
            acked_len: 0,
        }
    }

    pub fn state_now(&self) -> (r: BromState)
        ensures
            r == self.state(),
    {
        self.state
    }

    /// Starts a handshake from its first probe, in any state but after the jump.
    pub fn begin_handshake(&mut self)
        requires
            old(self).wf(),
            old(self).state() != BromState::Jumped,
        ensures
            final(self).wf(),
            final(self).state() == BromState::Handshaking,
            final(self).handshake() == hs_start(),
    {
        self.state = BromState::Handshaking;
        self.hs = Handshake { pos: 0, attempts: 0 };
    }

    /// The byte to send next during the handshake.
    pub fn handshake_probe(&self) -> (r: u8)
        requires
            self.wf(),
            self.state() == BromState::Handshaking,
        ensures
            r == brom_magic()[self.handshake().pos as int],
    {
        self.proto.probe(self.hs)
    }

    /// Takes the reply to the last probe (`None` when the read timed out).
    /// Returns `Ok(true)` once the handshake is complete, `Ok(false)` while
    /// more probes are due.
    pub fn handshake_reply(&mut self, reply: Option<u8>) -> (r: Result<bool, Error>)
        requires
            old(self).wf(),
            old(self).state() == BromState::Handshaking,
        ensures
            final(self).wf(),
            match hs_next(brom_magic(), BROM_MAX_ATTEMPTS, old(self).handshake(), reply) {
                HsStep::Done => r == Ok::<bool, Error>(true) && final(self).state() == BromState::Handshaken,
                HsStep::Continue(h) => r == Ok::<bool, Error>(false) && final(self).state()
                    == BromState::Handshaking && final(self).handshake() == h,
                HsStep::Failed => r == Err::<bool, Error>(Error::HandshakeTimeout) && final(self).state()
                    == BromState::Idle,
            },
    {
        match self.proto.handshake_step(self.hs, reply) {
            HsStep::Done => {
                self.state = BromState::Handshaken;
                Ok(true)
            },
            HsStep::Continue(h) => {
                self.hs = h;
                Ok(false)
            },
            HsStep::Failed => {
                self.state = BromState::Idle;
                Err(Error::HandshakeTimeout)
            },
        }
    }

    fn advance(&mut self, ok: bool, reached: BromState)
        requires
            old(self).wf(),
        ensures
            final(self).wf(),
            final(self).state() == after_query(old(self).state(), ok, reached),
            final(self).handshake() == old(self).handshake(),
    {
        if !ok {
            self.state = BromState::Idle;
        } else if self.state != BromState::Uploaded && self.state != BromState::SecurityChecked {
            self.state = reached;
        }
    }

    /// The hardware-code query; its reply takes `HW_CODE_REPLY_LEN` bytes.
    pub fn hw_code_request(&self) -> (r: Vec<u8>)
        requires
            self.wf(),
            can_query(self.state()),
        ensures
            r@ == seq![CMD_GET_HW_CODE],
    {
        let r = encode_command(CMD_GET_HW_CODE, &[]);
        assert(r@ =~= seq![CMD_GET_HW_CODE]);
        r
    }

    /// Judges the reply to the hardware-code query and returns the code.
    pub fn finish_hw_code(&mut self, reply: &[u8]) -> (r: Result<u32, Error>)
        requires
            old(self).wf(),
            can_query(old(self).state()),
        ensures
            final(self).wf(),
            r == match frame_result(seq![CMD_GET_HW_CODE], reply@, 2) {
                Ok(_) => Ok::<u32, Error>(be_at(reply@, 1, 2) as u32),
                Err(e) => Err(e),
            },
            final(self).state() == after_query(old(self).state(), r is Ok, BromState::Queried),
    {
        let sent: Vec<u8> = vec![CMD_GET_HW_CODE];
        assert(sent@ =~= seq![CMD_GET_HW_CODE]);
        let res = match check_frame(sent.as_slice(), reply, 2) {
            Ok(()) => Ok(read_be(reply, 1, 2)),
            Err(e) => Err(e),
        };
        self.advance(res.is_ok(), BromState::Queried);
        res
    }

    /// The hardware-dictionary query; its reply takes `HW_DICT_REPLY_LEN` bytes.
    pub fn hw_dict_request(&self) -> (r: Vec<u8>)
        requires
            self.wf(),
            can_query(self.state()),
        ensures
            r@ == seq![CMD_GET_HW_SW_VER],
    {
        let r = encode_command(CMD_GET_HW_SW_VER, &[]);
        assert(r@ =~= seq![CMD_GET_HW_SW_VER]);
        r
    }

    /// Judges the reply to the hardware-dictionary query and returns
    /// `(hw_sub_code, hw_ver, sw_ver)`.
    pub fn finish_hw_dict(&mut self, reply: &[u8]) -> (r: Result<(u32, u32, u32), Error>)
        requires
            old(self).wf(),
            can_query(old(self).state()),
        ensures
            final(self).wf(),
            r == match frame_result(seq![CMD_GET_HW_SW_VER], reply@, 6) {
                Ok(_) => Ok::<(u32, u32, u32), Error>(
                    (
                        be_at(reply@, 1, 2) as u32,
                        be_at(reply@, 3, 2) as u32,
                        be_at(reply@, 5, 2) as u32,
                    ),
                ),
                Err(e) => Err(e),
            },
            final(self).state() == after_query(old(self).state(), r is Ok, BromState::Queried),
    {
        let sent: Vec<u8> = vec![CMD_GET_HW_SW_VER];
        assert(sent@ =~= seq![CMD_GET_HW_SW_VER]);
        let res = match check_frame(sent.as_slice(), reply, 6) {
            Ok(()) => Ok((read_be(reply, 1, 2), read_be(reply, 3, 2), read_be(reply, 5, 2))),
            Err(e) => Err(e),
        };
        self.advance(res.is_ok(), BromState::Queried);
        res
    }

    /// The target-configuration query; its reply takes `TARGET_CONFIG_REPLY_LEN` bytes.
    pub fn target_config_request(&self) -> (r: Vec<u8>)
        requires
            self.wf(),
            can_query(self.state()),
        ensures
            r@ == seq![CMD_GET_TARGET_CONFIG],
    {
        let r = encode_command(CMD_GET_TARGET_CONFIG, &[]);
        assert(r@ =~= seq![CMD_GET_TARGET_CONFIG]);
        r
    }

    /// Judges the reply to the target-configuration query and decodes its
    /// bitfield. The flags are only reported: the caller decides.
    pub fn finish_target_config(&mut self, reply: &[u8]) -> (r: Result<SecurityConfig, Error>)
        requires
            old(self).wf(),
            can_query(old(self).state()),
        ensures
            final(self).wf(),
            r == match frame_result(seq![CMD_GET_TARGET_CONFIG], reply@, 4) {
                Ok(_) => Ok::<SecurityConfig, Error>(security_of(be_at(reply@, 1, 4) as u32)),
                Err(e) => Err(e),
            },
            r is Ok ==> final(self).state() == BromState::SecurityChecked,
            r is Err ==> final(self).state() == BromState::Idle,
    {
        let sent: Vec<u8> = vec![CMD_GET_TARGET_CONFIG];
        assert(sent@ =~= seq![CMD_GET_TARGET_CONFIG]);
        match check_frame(sent.as_slice(), reply, 4) {
            Ok(()) => {
                let config = read_be(reply, 1, 4);
                self.state = BromState::SecurityChecked;
                Ok(decode_target_config(config))
            },
            Err(e) => {
                self.state = BromState::Idle;
                Err(e)
            },
        }
    }

    /// The header of an upload of `payload` to `address`: command, address,
    /// length and offset. Its acknowledgement takes `SEND_DA_ACK_LEN` bytes.
    pub fn send_da_request(&mut self, address: u32, offset: u32, payload: &[u8]) -> (r: Vec<u8>)
        requires
            old(self).wf(),
            can_upload(old(self).state()),
            payload@.len() <= u32::MAX,
        ensures
            final(self).wf(),
            r@ == command_bytes(CMD_SEND_DA, seq![address, payload@.len() as u32, offset]),
            r@ == seq![CMD_SEND_DA] + be32(address) + be32(payload@.len() as u32) + be32(offset),
            final(self).header() == r@,
            final(self).state() == BromState::AwaitingAck,
    {
        let args: [u32; 3] = [address, payload.len() as u32, offset];
        let r = encode_command(CMD_SEND_DA, &args);
        proof {
            let a = seq![address, payload@.len() as u32, offset];
            assert(args@ =~= a);
            assert(a.drop_last() =~= seq![address, payload@.len() as u32]);
            assert(a.drop_last().drop_last() =~= seq![address]);
            assert(a.drop_last().drop_last().drop_last() =~= Seq::<u32>::empty());
            let e = Seq::<u32>::empty();
            assert(command_bytes(CMD_SEND_DA, e) == seq![CMD_SEND_DA]);
            assert(command_bytes(CMD_SEND_DA, seq![address]) == seq![CMD_SEND_DA] + be32(address));
            assert(command_bytes(CMD_SEND_DA, a.drop_last()) == seq![CMD_SEND_DA] + be32(address) + be32(
                payload@.len() as u32,
            ));
            assert(r@.len() == 13);
        }
        self.header = r.clone();
        self.state = BromState::AwaitingAck;
        r
    }

    /// Judges the acknowledgement of the upload header. The echoed length
    /// disagreeing with the one sent is a `ShortWrite`.
    pub fn finish_send_da_ack(&mut self, reply: &[u8]) -> (r: Result<(), Error>)
        requires
            old(self).wf(),
            old(self).state() == BromState::AwaitingAck,
        ensures
            final(self).wf(),
            r == header_result(old(self).header(), reply@, 5),
            final(self).header() == old(self).header(),
            r is Ok ==> final(self).state() == BromState::Uploading && final(self).acked_len() == be_at(
                old(self).header(),
                5,
                4,
            ),
            r is Err ==> final(self).state() == BromState::Idle,
    {
        let res = check_header(self.header.as_slice(), reply, 5);
        match res {
            Ok(()) => {
                self.acked_len = read_be(self.header.as_slice(), 5, 4);
                self.state = BromState::Uploading;
            },
            Err(_) => {
                self.state = BromState::Idle;
            },
        }
        res
    }

    /// Judges the end of an upload: `written` is how many payload bytes the
    /// link took, `reply` the device's checksum and status. Returns the checksum.
    pub fn finish_send_da(&mut self, payload: &[u8], written: usize, reply: &[u8]) -> (r: Result<u32, Error>)
        requires
            old(self).wf(),
            old(self).state() == BromState::Uploading,
        ensures
            final(self).wf(),
            r == upload_result(payload@, old(self).acked_len(), written as nat, reply@, brom_checksum()),
            r is Ok ==> final(self).state() == BromState::Uploaded,
            r is Err ==> final(self).state() == BromState::Idle,
    {
        let res = check_upload(payload, self.acked_len, written, reply, self.proto.checksum);
        if res.is_ok() {
            self.state = BromState::Uploaded;
        } else {
            self.state = BromState::Idle;
        }
        res
    }

    /// The jump to `address`. The device stops answering once it jumps, so
    /// nothing is read back; the client is done.
    pub fn jump_da_request(&mut self, address: u32) -> (r: Vec<u8>)
        requires
            old(self).wf(),
            old(self).state() == BromState::Uploaded,
        ensures
            final(self).wf(),
            r@ == seq![CMD_JUMP_DA] + be32(address),
            final(self).state() == BromState::Jumped,
    {
        let args: [u32; 1] = [address];
        let r = encode_command(CMD_JUMP_DA, &args);
        proof {
            assert(args@ =~= seq![address]);
            assert(seq![address].drop_last() =~= Seq::<u32>::empty());
            assert(command_bytes(CMD_JUMP_DA, Seq::<u32>::empty()) == seq![CMD_JUMP_DA]);
        }
        self.state = BromState::Jumped;
        r
    }
}

} // verus!
