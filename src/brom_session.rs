use vstd::prelude::*;

use crate::codec::{be32, be_at, lemma_be32_read};
use crate::bootrom::{
    brom_checksum, brom_magic, check_security, security_of, security_result, BootRom, BromState,
    BROM_MAX_ATTEMPTS, CMD_GET_HW_CODE, CMD_GET_HW_SW_VER, CMD_GET_TARGET_CONFIG, CMD_JUMP_DA,
    CMD_SEND_DA, HW_CODE_REPLY_LEN, HW_DICT_REPLY_LEN, SEND_DA_ACK_LEN, SEND_DA_REPLY_LEN,
    TARGET_CONFIG_REPLY_LEN,
};
use crate::protocol::{
    frame_result, header_result, hs_next, hs_start, upload_result, Error, Handshake, HsStep,
};
use crate::session::{is_exchange, is_send, reply_byte, Action};

verus! {

#[derive(PartialEq, Eq, Structural, Debug, Clone, Copy)]
pub enum BromStage {
    Handshake,
    HwCode,
    HwDict,
    TargetConfig,
    Header(usize),
    Data(usize),
    Done,
    Failed,
}

/// A whole BootROM session: handshake, identity and security queries, the
/// upload of each payload in turn, and the jump to the last one. It aborts
/// at the first error, and before any upload when a security feature is set.
pub struct BromSession {
    dev: BootRom,
    stage: BromStage,
    payloads: Vec<Vec<u8>>,
    addrs: Vec<u32>,
    cleared: bool,
    accepted: usize,
    outcome: Result<(), Error>,
    hw_code: u32,
    hw_dict: (u32, u32, u32),
    checksums: Vec<u32>,
}

/// The header of an upload of `len` bytes to `addr`, at offset zero.
pub open spec fn da_header(addr: u32, len: nat) -> Seq<u8> {
    seq![CMD_SEND_DA] + be32(addr) + be32(len as u32) + be32(0)
}

pub open spec fn stage_matches(stage: BromStage, s: BromState) -> bool {
    match stage {
        BromStage::Handshake => s == BromState::Handshaking,
        BromStage::HwCode => s == BromState::Handshaken,
        BromStage::HwDict => s == BromState::Queried,
        BromStage::TargetConfig => s == BromState::Queried,
        BromStage::Header(_) => s == BromState::AwaitingAck,
        BromStage::Data(_) => s == BromState::Uploading,
        BromStage::Done => s == BromState::Jumped,
        BromStage::Failed => s != BromState::Jumped,
    }
}

impl BromSession {
    pub closed spec fn stage(&self) -> BromStage {
        self.stage
    }

    /// Whether the security query came back with no feature set.
    pub closed spec fn cleared(&self) -> bool {
        self.cleared
    }

    /// How many payloads the device has accepted.
    pub closed spec fn accepted(&self) -> nat {
        self.accepted as nat
    }

    pub closed spec fn payload_count(&self) -> nat {
        self.payloads@.len()
    }

    pub closed spec fn payload_at(&self, i: int) -> Seq<u8> {
        self.payloads@[i]@
    }

    /// The load address of the payload with index `i`.
    pub closed spec fn address_at(&self, i: int) -> u32 {
        self.addrs@[i]
    }

    /// The handshake in progress.
    pub closed spec fn handshake(&self) -> Handshake {
        self.dev.handshake()
    }

    /// The outcome recorded when the session failed.
    pub closed spec fn outcome(&self) -> Result<(), Error> {
        self.outcome
    }

    /// The hardware code and dictionary the device reported.
    pub closed spec fn identity(&self) -> (u32, (u32, u32, u32)) {
        (self.hw_code, self.hw_dict)
    }

    /// The checksums of the payloads accepted so far.
    pub closed spec fn checksum_log(&self) -> Seq<u32> {
        self.checksums@
    }

    closed spec fn wf_data(&self) -> bool {
        &&& self.dev.wf()
        &&& 1 <= self.payloads@.len() <= 2
        &&& self.addrs@.len() == self.payloads@.len()
        &&& forall|i: int| 0 <= i < self.payloads@.len() ==> self.payloads@[i]@.len() <= u32::MAX
        &&& self.accepted <= self.payloads@.len()
    }

    pub closed spec fn wf(&self) -> bool {
        &&& self.wf_data()
        &&& stage_matches(self.stage, self.dev.state())
        &&& match self.stage {
            BromStage::Header(i) => i == self.accepted && i < self.payloads@.len() && self.cleared
                && self.dev.header() == da_header(self.addrs@[i as int], self.payloads@[i as int]@.len()),
            BromStage::Data(i) => i == self.accepted && i < self.payloads@.len() && self.cleared
                && self.dev.acked_len() == self.payloads@[i as int]@.len(),
            BromStage::Done => self.accepted == self.payloads@.len() && self.cleared,
            BromStage::Failed => true,
            _ => self.accepted == 0,
        }
    }

    /// A session that uploads `payload` to `load_addr`, then the second
    /// payload when there is one, and jumps to the last one uploaded.
    pub fn new(payload: Vec<u8>, load_addr: u32, second: Option<(Vec<u8>, u32)>) -> (r: BromSession)
        requires
            payload@.len() <= u32::MAX,
            second matches Some(p) ==> p.0@.len() <= u32::MAX,
        ensures
            r.wf(),
            r.stage() == BromStage::Handshake,
            r.payload_count() == if second is Some { 2nat } else { 1nat },
            r.payload_at(0) == payload@,
            r.address_at(0) == load_addr,
            second matches Some(p) ==> r.payload_at(1) == p.0@ && r.address_at(1) == p.1,
            r.handshake() == hs_start(),
            r.checksum_log() == Seq::<u32>::empty(),
            !r.cleared(),
    {
        let mut dev = BootRom::new();
        dev.begin_handshake();
        let mut payloads: Vec<Vec<u8>> = Vec::new();
        let mut addrs: Vec<u32> = Vec::new();
        payloads.push(payload);
        addrs.push(load_addr);
        match second {
            Some((p, a)) => {
                payloads.push(p);
                addrs.push(a);
            },
            None => {},
        }
        BromSession {
            dev,
            stage: BromStage::Handshake,
            payloads,
            addrs,
            cleared: false,
            accepted: 0,
            outcome: Ok(()),
            hw_code: 0,
            hw_dict: (0, 0, 0),
            checksums: Vec::new(),
        }
    }

    /// The first action: the first handshake probe.
    pub fn start(&self) -> (r: Action)
        requires
            self.wf(),
            self.stage() == BromStage::Handshake,
        ensures
            is_exchange(r, seq![brom_magic()[self.handshake().pos as int]], 1),
    {
        self.probe_action()
    }

    fn probe_action(&self) -> (r: Action)
        requires
            self.dev.wf(),
            self.dev.state() == BromState::Handshaking,
        ensures
            is_exchange(r, seq![brom_magic()[self.handshake().pos as int]], 1),
    {
        let b = self.dev.handshake_probe();
        let tx = vec![b];
        assert(tx@ =~= seq![b]);
        Action::Exchange(tx, 1)
    }

    /// The payload with index `i`, for the driver to write.
    pub fn payload(&self, i: usize) -> (r: &Vec<u8>)
        requires
            self.wf(),
            i < self.payload_count(),
        ensures
            r@ == self.payload_at(i as int),
    {
        &self.payloads[i]
    }

    pub fn stage_now(&self) -> (r: BromStage)
        ensures
            r == self.stage(),
    {
        self.stage
    }

    pub fn hw_code(&self) -> (r: u32)
        ensures
            r == self.identity().0,
    {
        self.hw_code
    }

    pub fn hw_dict(&self) -> (r: (u32, u32, u32))
        ensures
            r == self.identity().1,
    {
        self.hw_dict
    }

    /// The checksums of the payloads accepted so far.
    pub fn checksums(&self) -> (r: Vec<u32>)
        ensures
            r@ == self.checksum_log(),
    {
        self.checksums.clone()
    }

    fn fail(&mut self, e: Error) -> (r: Action)
        requires
            old(self).wf_data(),
            old(self).dev.state() != BromState::Jumped,
        ensures
            final(self).wf(),
            final(self).stage() == BromStage::Failed,
            r == Action::Finished(Err(e)),
            final(self).cleared() == old(self).cleared(),
            final(self).payloads@ == old(self).payloads@,
            final(self).addrs@ == old(self).addrs@,
            final(self).checksums@ == old(self).checksums@,
            final(self).identity() == old(self).identity(),
            final(self).outcome() == Err::<(), Error>(e),
    {
        self.stage = BromStage::Failed;
        self.outcome = Err(e);
        Action::Finished(Err(e))
    }

    fn upload_header(&mut self, i: usize) -> (r: Action)
        requires
            old(self).wf_data(),
            old(self).cleared(),
            i == old(self).accepted(),
            i < old(self).payload_count(),
            old(self).dev.state() == BromState::SecurityChecked || old(self).dev.state()
                == BromState::Uploaded,
        ensures
            final(self).wf(),
            final(self).stage() == BromStage::Header(i),
            final(self).cleared(),
            final(self).accepted() == old(self).accepted(),
            final(self).payloads@ == old(self).payloads@,
            final(self).addrs@ == old(self).addrs@,
            final(self).checksums@ == old(self).checksums@,
            final(self).identity() == old(self).identity(),
            is_exchange(r, da_header(old(self).addrs@[i as int], old(self).payloads@[i as int]@.len()), SEND_DA_ACK_LEN),
    {
        let tx = self.dev.send_da_request(self.addrs[i], 0, self.payloads[i].as_slice());
        self.stage = BromStage::Header(i);
        Action::Exchange(tx, SEND_DA_ACK_LEN)
    }

    /// Takes what the driver did for the last action (`written` payload
    /// bytes, `reply` read back) and returns the next action.
    pub fn step(&mut self, written: usize, reply: &[u8]) -> (r: Action)
        requires
            old(self).wf(),
        ensures
            final(self).wf(),
            final(self).payload_count() == old(self).payload_count(),
            forall|j: int| 0 <= j < old(self).payload_count() ==> final(self).payload_at(j) == old(
                self,
            ).payload_at(j) && final(self).address_at(j) == old(self).address_at(j),
            r is Upload ==> final(self).cleared() && final(self).stage() is Data,
            r is Send ==> final(self).stage() == BromStage::Done && final(self).accepted()
                == final(self).payload_count(),
            old(self).stage() == BromStage::Handshake ==> match hs_next(
                brom_magic(),
                BROM_MAX_ATTEMPTS,
                old(self).handshake(),
                reply_byte(reply@),
            ) {
                HsStep::Done => is_exchange(r, seq![CMD_GET_HW_CODE], HW_CODE_REPLY_LEN)
                    && final(self).stage() == BromStage::HwCode,
                HsStep::Continue(h) => is_exchange(r, seq![brom_magic()[h.pos as int]], 1)
                    && final(self).stage() == BromStage::Handshake && final(self).handshake() == h,
                HsStep::Failed => r == Action::Finished(Err(Error::HandshakeTimeout))
                    && final(self).stage() == BromStage::Failed,
            },
            old(self).stage() == BromStage::HwCode ==> match frame_result(
                seq![CMD_GET_HW_CODE],
                reply@,
                2,
            ) {
                Ok(_) => is_exchange(r, seq![CMD_GET_HW_SW_VER], HW_DICT_REPLY_LEN)
                    && final(self).stage() == BromStage::HwDict
                    && final(self).identity().0 == be_at(reply@, 1, 2) as u32,
                Err(e) => r == Action::Finished(Err(e)) && final(self).stage() == BromStage::Failed,
            },
            old(self).stage() == BromStage::HwDict ==> match frame_result(
                seq![CMD_GET_HW_SW_VER],
                reply@,
                6,
            ) {
                Ok(_) => is_exchange(r, seq![CMD_GET_TARGET_CONFIG], TARGET_CONFIG_REPLY_LEN)
                    && final(self).stage() == BromStage::TargetConfig && final(self).identity().1 == (
                    be_at(reply@, 1, 2) as u32,
                    be_at(reply@, 3, 2) as u32,
                    be_at(reply@, 5, 2) as u32,
                ),
                Err(e) => r == Action::Finished(Err(e)) && final(self).stage() == BromStage::Failed,
            },
            old(self).stage() == BromStage::TargetConfig ==> match frame_result(
                seq![CMD_GET_TARGET_CONFIG],
                reply@,
                4,
            ) {
                Ok(_) => match security_result(security_of(be_at(reply@, 1, 4) as u32)) {
                    Ok(_) => is_exchange(
                        r,
                        da_header(old(self).address_at(0), old(self).payload_at(0).len()),
                        SEND_DA_ACK_LEN,
                    ) && final(self).stage() == BromStage::Header(0),
                    Err(e) => r == Action::Finished(Err(e)) && final(self).stage() == BromStage::Failed,
                },
                Err(e) => r == Action::Finished(Err(e)) && final(self).stage() == BromStage::Failed,
            },
            old(self).stage() matches BromStage::Header(i) ==> match header_result(
                da_header(old(self).address_at(i as int), old(self).payload_at(i as int).len()),
                reply@,
                5,
            ) {
                Ok(_) => r == Action::Upload(i, SEND_DA_REPLY_LEN) && final(self).stage()
                    == BromStage::Data(i),
                Err(e) => r == Action::Finished(Err(e)) && final(self).stage() == BromStage::Failed,
            },
            old(self).stage() matches BromStage::Data(i) ==> match upload_result(
                old(self).payload_at(i as int),
                old(self).payload_at(i as int).len(),
                written as nat,
                reply@,
                brom_checksum(),
            ) {
                Ok(c) => final(self).checksum_log() == old(self).checksum_log().push(c) && if i + 1
                    < old(self).payload_count() {
                    is_exchange(
                        r,
                        da_header(
                            old(self).address_at(i + 1),
                            old(self).payload_at(i + 1).len(),
                        ),
                        SEND_DA_ACK_LEN,
                    ) && final(self).stage() == BromStage::Header((i + 1) as usize)
                } else {
                    is_send(r, seq![CMD_JUMP_DA] + be32(old(self).address_at(i as int)))
                        && final(self).stage() == BromStage::Done
                },
                Err(e) => r == Action::Finished(Err(e)) && final(self).stage() == BromStage::Failed,
            },
            old(self).stage() == BromStage::Done ==> r == Action::Finished(Ok(()))
                && final(self).stage() == BromStage::Done,
            old(self).stage() == BromStage::Failed ==> r == Action::Finished(old(self).outcome())
                && final(self).stage() == BromStage::Failed,
    {
        match self.stage {
            BromStage::Handshake => {
                let b = if reply.len() >= 1 {
                    Some(reply[0])
                } else {
                    None
                };
                match self.dev.handshake_reply(b) {
                    Ok(true) => {
                        self.stage = BromStage::HwCode;
                        Action::Exchange(self.dev.hw_code_request(), HW_CODE_REPLY_LEN)
                    },
                    Ok(false) => self.probe_action(),
                    Err(e) => self.fail(e),
                }
            },
            BromStage::HwCode => match self.dev.finish_hw_code(reply) {
                Ok(c) => {
                    self.hw_code = c;
                    self.stage = BromStage::HwDict;
                    Action::Exchange(self.dev.hw_dict_request(), HW_DICT_REPLY_LEN)
                },
                Err(e) => self.fail(e),
            },
            BromStage::HwDict => match self.dev.finish_hw_dict(reply) {
                Ok(d) => {
                    self.hw_dict = d;
                    self.stage = BromStage::TargetConfig;
                    Action::Exchange(self.dev.target_config_request(), TARGET_CONFIG_REPLY_LEN)
                },
                Err(e) => self.fail(e),
            },
            BromStage::TargetConfig => match self.dev.finish_target_config(reply) {
                Ok(cfg) => match check_security(cfg) {
                    Ok(()) => {
                        self.cleared = true;
                        self.upload_header(0)
                    },
                    Err(e) => self.fail(e),
                },
                Err(e) => self.fail(e),
            },
            BromStage::Header(i) => match self.dev.finish_send_da_ack(reply) {
                Ok(()) => {
                    proof {
                        let hd = da_header(self.addrs@[i as int], self.payloads@[i as int]@.len());
                        let len32 = self.payloads@[i as int]@.len() as u32;
                        assert(hd.subrange(5, 9) =~= be32(len32));
                        lemma_be32_read(hd, 5, len32);
                    }
                    self.stage = BromStage::Data(i);
                    Action::Upload(i, SEND_DA_REPLY_LEN)
                },
                Err(e) => self.fail(e),
            },
            BromStage::Data(i) => match self.dev.finish_send_da(self.payloads[i].as_slice(), written, reply) {
                Ok(sum) => {
                    self.checksums.push(sum);
                    self.accepted = i + 1;
                    if i + 1 < self.payloads.len() {
                        self.upload_header(i + 1)
                    } else {
                        let tx = self.dev.jump_da_request(self.addrs[i]);
                        self.stage = BromStage::Done;
                        Action::Send(tx)
                    }
                },
                Err(e) => self.fail(e),
            },
            BromStage::Done => Action::Finished(Ok(())),
            BromStage::Failed => Action::Finished(self.outcome),
        }
    }
}

} // verus!
