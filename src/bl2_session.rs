use vstd::prelude::*;

use crate::codec::{be32, be_at, lemma_be32_read};
use crate::bl2::{
    bl2_checksum, bl2_magic, Bl2, Bl2State, BAUDRATE_ACK_LEN, BL2_MAX_ATTEMPTS, CMD_BAUDRATE, CMD_GO,
    CMD_SEND_FIP, CMD_VERSION, SEND_FIP_ACK_LEN, SEND_FIP_REPLY_LEN, VERSION_REPLY_LEN,
};
use crate::protocol::{
    frame_result, header_result, hs_next, hs_start, upload_result, Error, Handshake, HsStep,
};
use crate::session::{is_exchange, is_send, reply_byte, Action};

verus! {

#[derive(PartialEq, Eq, Structural, Debug, Clone, Copy)]
pub enum Bl2Stage {
    Handshake,
    Version,
    Baud,
    Switch,
    Resync,
    Header,
    Data,
    Done,
    Failed,
}

/// The header of an upload of `len` bytes; the device owns the address.
pub open spec fn fip_header(len: nat) -> Seq<u8> {
    seq![CMD_SEND_FIP] + be32(len as u32)
}

/// The command that switches the device to `rate`.
pub open spec fn baud_command(rate: u32) -> Seq<u8> {
    seq![CMD_BAUDRATE] + be32(rate)
}

pub open spec fn bl2_stage_matches(stage: Bl2Stage, s: Bl2State) -> bool {
    match stage {
        Bl2Stage::Handshake => s == Bl2State::Handshaking,
        Bl2Stage::Version => s == Bl2State::Ready,
        Bl2Stage::Baud => s == Bl2State::BaudPending,
        Bl2Stage::Switch => s == Bl2State::BaudAcked,
        Bl2Stage::Resync => s == Bl2State::Resyncing,
        Bl2Stage::Header => s == Bl2State::AwaitingAck,
        Bl2Stage::Data => s == Bl2State::Uploading,
        Bl2Stage::Done => s == Bl2State::Executing,
        Bl2Stage::Failed => s != Bl2State::Executing,
    }
}

/// A whole second-stage session: handshake, version query, baud-rate
/// switch confirmed by a fresh handshake, upload of the firmware image
/// package, and the command to run it. It aborts at the first error.
pub struct Bl2Session {
    dev: Bl2,
    stage: Bl2Stage,
    fip: Vec<u8>,
    rate: u32,
    switched: bool,
    outcome: Result<(), Error>,
    version: u32,
    checksum: u32,
}

impl Bl2Session {
    pub closed spec fn stage(&self) -> Bl2Stage {
        self.stage
    }

    /// The handshake in progress.
    pub closed spec fn handshake(&self) -> Handshake {
        self.dev.handshake()
    }

    /// The baud rate the session switches to.
    pub closed spec fn rate(&self) -> u32 {
        self.rate
    }

    pub closed spec fn image(&self) -> Seq<u8> {
        self.fip@
    }

    /// Whether a handshake at the new baud rate has succeeded.
    pub closed spec fn switched(&self) -> bool {
        self.switched
    }

    /// The outcome recorded when the session failed.
    pub closed spec fn outcome(&self) -> Result<(), Error> {
        self.outcome
    }

    /// The version and the image checksum the device reported.
    pub closed spec fn reports(&self) -> (u32, u32) {
        (self.version, self.checksum)
    }

    closed spec fn wf_data(&self) -> bool {
        &&& self.dev.wf()
        &&& self.fip@.len() <= u32::MAX
    }

    pub closed spec fn wf(&self) -> bool {
        &&& self.wf_data()
        &&& bl2_stage_matches(self.stage, self.dev.state())
        &&& (self.stage == Bl2Stage::Header || self.stage == Bl2Stage::Data || self.stage
            == Bl2Stage::Done) ==> self.switched
        &&& self.stage == Bl2Stage::Baud ==> self.dev.sent() == baud_command(self.rate)
        &&& self.stage == Bl2Stage::Header ==> self.dev.sent() == fip_header(self.fip@.len())
        &&& self.stage == Bl2Stage::Data ==> self.dev.acked_len() == self.fip@.len()
    }

    /// A session that switches the link to `rate`, then uploads and runs `fip`.
    pub fn new(fip: Vec<u8>, rate: u32) -> (r: Bl2Session)
        requires
            fip@.len() <= u32::MAX,
        ensures
            r.wf(),
            r.stage() == Bl2Stage::Handshake,
            r.image() == fip@,
            r.rate() == rate,
            r.handshake() == hs_start(),
            !r.switched(),
    {
        let mut dev = Bl2::new();
        dev.begin_handshake();
        Bl2Session {
            dev,
            stage: Bl2Stage::Handshake,
            fip,
            rate,
            switched: false,
            outcome: Ok(()),
            version: 0,
            checksum: 0,
        }
    }

    /// The first action: the first handshake probe.
    pub fn start(&self) -> (r: Action)
        requires
            self.wf(),
            self.stage() == Bl2Stage::Handshake,
        ensures
            is_exchange(r, seq![bl2_magic()[self.handshake().pos as int]], 1),
    {
        self.probe_action()
    }

    fn probe_action(&self) -> (r: Action)
        requires
            self.dev.wf(),
            self.dev.state() == Bl2State::Handshaking || self.dev.state() == Bl2State::Resyncing,
        ensures
            is_exchange(r, seq![bl2_magic()[self.handshake().pos as int]], 1),
    {
        let b = self.dev.handshake_probe();
        let tx = vec![b];
        assert(tx@ =~= seq![b]);
        Action::Exchange(tx, 1)
    }

    /// The image, for the driver to write.
    pub fn fip(&self) -> (r: &Vec<u8>)
        ensures
            r@ == self.image(),
    {
        &self.fip
    }

    pub fn version(&self) -> (r: u32)
        ensures
            r == self.reports().0,
    {
        self.version
    }

    pub fn checksum(&self) -> (r: u32)
        ensures
            r == self.reports().1,
    {
        self.checksum
    }

    fn fail(&mut self, e: Error) -> (r: Action)
        requires
            old(self).wf_data(),
            old(self).dev.state() != Bl2State::Executing,
        ensures
            final(self).wf(),
            final(self).stage() == Bl2Stage::Failed,
            r == Action::Finished(Err(e)),
            final(self).outcome() == Err::<(), Error>(e),
            final(self).image() == old(self).image(),
            final(self).rate() == old(self).rate(),
            final(self).reports() == old(self).reports(),
    {
        self.stage = Bl2Stage::Failed;
        self.outcome = Err(e);
        Action::Finished(Err(e))
    }

    /// Takes what the driver did for the last action (`written` image
    /// bytes, `reply` read back) and returns the next action.
    pub fn step(&mut self, written: usize, reply: &[u8]) -> (r: Action)
        requires
            old(self).wf(),
        ensures
            final(self).wf(),
            final(self).image() == old(self).image(),
            final(self).rate() == old(self).rate(),
            r is Upload ==> final(self).switched() && final(self).stage() == Bl2Stage::Data,
            r is Send ==> final(self).stage() == Bl2Stage::Done,
            old(self).stage() == Bl2Stage::Handshake ==> match hs_next(
                bl2_magic(),
                BL2_MAX_ATTEMPTS,
                old(self).handshake(),
                reply_byte(reply@),
            ) {
                HsStep::Done => is_exchange(r, seq![CMD_VERSION], VERSION_REPLY_LEN)
                    && final(self).stage() == Bl2Stage::Version,
                HsStep::Continue(h) => is_exchange(r, seq![bl2_magic()[h.pos as int]], 1)
                    && final(self).stage() == Bl2Stage::Handshake && final(self).handshake() == h,
                HsStep::Failed => r == Action::Finished(Err(Error::HandshakeTimeout))
                    && final(self).stage() == Bl2Stage::Failed,
            },
            old(self).stage() == Bl2Stage::Version ==> match frame_result(
                seq![CMD_VERSION],
                reply@,
                4,
            ) {
                Ok(_) => is_exchange(r, baud_command(old(self).rate()), BAUDRATE_ACK_LEN)
                    && final(self).stage() == Bl2Stage::Baud
                    && final(self).reports().0 == be_at(reply@, 1, 4) as u32,
                Err(e) => r == Action::Finished(Err(e)) && final(self).stage() == Bl2Stage::Failed,
            },
            old(self).stage() == Bl2Stage::Baud ==> match frame_result(
                baud_command(old(self).rate()),
                reply@,
                0,
            ) {
                Ok(_) => r == Action::SwitchBaud(old(self).rate()) && final(self).stage()
                    == Bl2Stage::Switch,
                Err(e) => r == Action::Finished(Err(e)) && final(self).stage() == Bl2Stage::Failed,
            },
            old(self).stage() == Bl2Stage::Switch ==> is_exchange(r, seq![bl2_magic()[0]], 1)
                && final(self).stage() == Bl2Stage::Resync && final(self).handshake() == hs_start(),
            old(self).stage() == Bl2Stage::Resync ==> match hs_next(
                bl2_magic(),
                BL2_MAX_ATTEMPTS,
                old(self).handshake(),
                reply_byte(reply@),
            ) {
                HsStep::Done => is_exchange(r, fip_header(old(self).image().len()), SEND_FIP_ACK_LEN)
                    && final(self).switched() && final(self).stage() == Bl2Stage::Header,
                HsStep::Continue(h) => is_exchange(r, seq![bl2_magic()[h.pos as int]], 1)
                    && final(self).stage() == Bl2Stage::Resync && final(self).handshake() == h,
                HsStep::Failed => r == Action::Finished(Err(Error::BaudSwitchFailed))
                    && final(self).stage() == Bl2Stage::Failed,
            },
            old(self).stage() == Bl2Stage::Header ==> match header_result(
                fip_header(old(self).image().len()),
                reply@,
                1,
            ) {
                Ok(_) => r == Action::Upload(0, SEND_FIP_REPLY_LEN) && final(self).stage()
                    == Bl2Stage::Data,
                Err(e) => r == Action::Finished(Err(e)) && final(self).stage() == Bl2Stage::Failed,
            },
            old(self).stage() == Bl2Stage::Data ==> match upload_result(
                old(self).image(),
                old(self).image().len(),
                written as nat,
                reply@,
                bl2_checksum(),
            ) {
                Ok(c) => is_send(r, seq![CMD_GO]) && final(self).stage() == Bl2Stage::Done
                    && final(self).reports().1 == c,
                Err(e) => r == Action::Finished(Err(e)) && final(self).stage() == Bl2Stage::Failed,
            },
            old(self).stage() == Bl2Stage::Done ==> r == Action::Finished(Ok(()))
                && final(self).stage() == Bl2Stage::Done,
            old(self).stage() == Bl2Stage::Failed ==> r == Action::Finished(old(self).outcome())
                && final(self).stage() == Bl2Stage::Failed,
    {
        let b = if reply.len() >= 1 {
            Some(reply[0])
        } else {
            None
        };
        match self.stage {
            Bl2Stage::Handshake => match self.dev.handshake_reply(b) {
                Ok(true) => {
                    self.stage = Bl2Stage::Version;
                    Action::Exchange(self.dev.version_request(), VERSION_REPLY_LEN)
                },
                Ok(false) => self.probe_action(),
                Err(e) => self.fail(e),
            },
            Bl2Stage::Version => match self.dev.finish_version(reply) {
                Ok(v) => {
                    self.version = v;
                    let tx = self.dev.set_baudrate_request(self.rate);
                    self.stage = Bl2Stage::Baud;
                    Action::Exchange(tx, BAUDRATE_ACK_LEN)
                },
                Err(e) => self.fail(e),
            },
            Bl2Stage::Baud => match self.dev.finish_set_baudrate(reply) {
                Ok(()) => {
                    self.stage = Bl2Stage::Switch;
                    Action::SwitchBaud(self.rate)
                },
                Err(e) => self.fail(e),
            },
            Bl2Stage::Switch => {
                self.dev.begin_handshake();
                self.stage = Bl2Stage::Resync;
                self.probe_action()
            },
            Bl2Stage::Resync => match self.dev.handshake_reply(b) {
                Ok(true) => {
                    self.switched = true;
                    let tx = self.dev.send_fip_request(self.fip.as_slice());
                    self.stage = Bl2Stage::Header;
                    Action::Exchange(tx, SEND_FIP_ACK_LEN)
                },
                Ok(false) => self.probe_action(),
                Err(e) => self.fail(e),
            },
            Bl2Stage::Header => match self.dev.finish_send_fip_ack(reply) {
                Ok(()) => {
                    proof {
                        let hd = fip_header(self.fip@.len());
                        let len32 = self.fip@.len() as u32;
                        assert(hd.subrange(1, 5) =~= be32(len32));
                        lemma_be32_read(hd, 1, len32);
                    }
                    self.stage = Bl2Stage::Data;
                    Action::Upload(0, SEND_FIP_REPLY_LEN)
                },
                Err(e) => self.fail(e),
            },
            Bl2Stage::Data => match self.dev.finish_send_fip(self.fip.as_slice(), written, reply) {
                Ok(sum) => {
                    self.checksum = sum;
                    self.stage = Bl2Stage::Done;
                    Action::Send(self.dev.go_request())
                },
                Err(e) => self.fail(e),
            },
            Bl2Stage::Done => Action::Finished(Ok(())),
            Bl2Stage::Failed => Action::Finished(self.outcome),
        }
    }
}

} // verus!
