use mtk_uartboot::bl2_session::Bl2Session;
use mtk_uartboot::brom_session::BromSession;
use mtk_uartboot::protocol::{Error, ProtocolError};
use mtk_uartboot::session::Action;

/// A BootROM on an in-memory link, answering whole actions.
struct Rom {
    config: u32,
    probes_left: usize,
    upload_commands: usize,
    jumped_to: Option<u32>,
    replies_after_jump: usize,
    wrong_checksum: bool,
}

impl Rom {
    fn new(config: u32) -> Rom {
        Rom { config, probes_left: 4, upload_commands: 0, jumped_to: None, replies_after_jump: 0, wrong_checksum: false }
    }

    fn exchange(&mut self, tx: &[u8]) -> Vec<u8> {
        if self.jumped_to.is_some() {
            self.replies_after_jump += 1;
            return Vec::new();
        }
        if self.probes_left > 0 {
            self.probes_left -= 1;
            return vec![!tx[0]];
        }
        let mut r = tx.to_vec();
        match tx[0] {
            0xfd => r.extend_from_slice(&[0x12, 0x34, 0, 0]),
            0xfc => r.extend_from_slice(&[0x8a, 0x00, 0xca, 0x00, 0x00, 0x00, 0, 0]),
            0xd8 => {
                r.extend_from_slice(&self.config.to_be_bytes());
                r.extend_from_slice(&[0, 0]);
            }
            0xd7 => {
                self.upload_commands += 1;
                r.extend_from_slice(&[0, 0]);
            }
            _ => r.clear(),
        }
        r
    }

    fn upload(&mut self, data: &[u8]) -> Vec<u8> {
        let mut sum: u16 = 0;
        for pair in data.chunks(2) {
            sum ^= pair[0] as u16 | ((*pair.get(1).unwrap_or(&0) as u16) << 8);
        }
        if self.wrong_checksum {
            sum ^= 1;
        }
        let mut r = sum.to_be_bytes().to_vec();
        r.extend_from_slice(&[0, 0]);
        r
    }
}

/// Runs a BootROM session against the stub; returns its outcome and the
/// actions it took.
fn run_brom(session: &mut BromSession, rom: &mut Rom) -> (Result<(), Error>, Vec<Action>) {
    let mut log = Vec::new();
    let mut action = session.start();
    loop {
        let (written, reply) = match &action {
            Action::Exchange(tx, _) => (0, rom.exchange(tx)),
            Action::Upload(i, _) => {
                let p = session.payload(*i).clone();
                (p.len(), rom.upload(&p))
            }
            Action::Send(tx) => {
                assert_eq!(tx[0], 0xd5);
                rom.jumped_to = Some(u32::from_be_bytes([tx[1], tx[2], tx[3], tx[4]]));
                (0, Vec::new())
            }
            Action::SwitchBaud(_) => (0, Vec::new()),
            Action::Finished(outcome) => return (*outcome, log),
        };
        log.push(action);
        action = session.step(written, &reply);
    }
}

#[test]
fn scenario_a_session_succeeds() {
    let payload: Vec<u8> = (0..64u32).map(|i| ((i * i * i + 5 * i + 17) % 251) as u8).collect();
    let mut rom = Rom::new(0);
    let mut session = BromSession::new(payload, 0x0020_1000, None);
    let (outcome, log) = run_brom(&mut session, &mut rom);
    assert_eq!(outcome, Ok(()));
    assert_eq!(session.hw_code(), 0x1234);
    assert_eq!(session.checksums(), vec![0xbfbf]);
    assert_eq!(rom.upload_commands, 1);
    assert_eq!(rom.jumped_to, Some(0x0020_1000));
    assert_eq!(rom.replies_after_jump, 0);
    assert_eq!(log.last(), Some(&Action::Send(vec![0xd5, 0x00, 0x20, 0x10, 0x00])));
}

#[test]
fn scenario_b_secure_boot_aborts_before_any_upload() {
    let mut rom = Rom::new(1);
    let mut session = BromSession::new(vec![1, 2, 3, 4], 0x0020_1000, None);
    let (outcome, log) = run_brom(&mut session, &mut rom);
    assert_eq!(outcome, Err(Error::SecurityPrecondition));
    assert_eq!(rom.upload_commands, 0);
    assert!(log.iter().all(|a| !matches!(a, Action::Upload(..) | Action::Send(_))));
    assert_eq!(rom.jumped_to, None);
}

#[test]
fn any_security_flag_aborts_the_session() {
    for config in 1..8u32 {
        let mut rom = Rom::new(config);
        let mut session = BromSession::new(vec![1, 2, 3, 4], 0x0020_1000, None);
        assert_eq!(run_brom(&mut session, &mut rom).0, Err(Error::SecurityPrecondition));
        assert_eq!(rom.upload_commands, 0);
    }
}

#[test]
fn two_payloads_jump_to_the_second() {
    let mut rom = Rom::new(0);
    let mut session = BromSession::new(vec![1, 2, 3, 4], 0x0020_1000, Some((vec![9, 8, 7], 0x0020_0a00)));
    let (outcome, _) = run_brom(&mut session, &mut rom);
    assert_eq!(outcome, Ok(()));
    assert_eq!(rom.upload_commands, 2);
    assert_eq!(session.checksums(), vec![0x0602, 0x080e]);
    assert_eq!(rom.jumped_to, Some(0x0020_0a00));
}

#[test]
fn checksum_mismatch_aborts_before_the_jump() {
    let mut rom = Rom::new(0);
    rom.wrong_checksum = true;
    let mut session = BromSession::new(vec![1, 2, 3, 4], 0x0020_1000, None);
    let (outcome, _) = run_brom(&mut session, &mut rom);
    assert_eq!(outcome, Err(Error::ChecksumMismatch));
    assert_eq!(rom.jumped_to, None);
    assert_eq!(session.step(0, &[]), Action::Finished(Err(Error::ChecksumMismatch)));
}

#[test]
fn silent_device_fails_the_handshake() {
    let mut session = BromSession::new(vec![1], 0x0020_1000, None);
    let mut action = session.start();
    let mut probes = 0;
    while let Action::Exchange(..) = action {
        probes += 1;
        action = session.step(0, &[]);
    }
    assert_eq!(action, Action::Finished(Err(Error::HandshakeTimeout)));
    assert_eq!(probes, 64);
}

#[test]
fn short_reply_aborts_the_session() {
    let mut session = BromSession::new(vec![1], 0x0020_1000, None);
    let mut action = session.start();
    for _ in 0..4 {
        let b = match &action {
            Action::Exchange(tx, _) => !tx[0],
            other => panic!("unexpected {:?}", other),
        };
        action = session.step(0, &[b]);
    }
    assert_eq!(action, Action::Exchange(vec![0xfd], 5));
    assert_eq!(session.step(0, &[0xfd, 0x12]), Action::Finished(Err(Error::Protocol(ProtocolError::ShortReply))));
}

/// A second-stage loader on an in-memory link with a baud rate on each side.
struct Loader {
    device_rate: u32,
    host_rate: u32,
    ignore_switch: bool,
    probes_left: usize,
    went: bool,
}

impl Loader {
    fn exchange(&mut self, tx: &[u8]) -> Vec<u8> {
        if self.device_rate != self.host_rate {
            return Vec::new();
        }
        if self.probes_left > 0 {
            self.probes_left -= 1;
            return vec![!tx[0]];
        }
        let mut r = tx.to_vec();
        match tx[0] {
            0x01 => r.extend_from_slice(&[0, 0, 0, 3, 0, 0]),
            0x02 => {
                r.extend_from_slice(&[0, 0]);
                if !self.ignore_switch {
                    self.device_rate = u32::from_be_bytes([tx[1], tx[2], tx[3], tx[4]]);
                }
                self.probes_left = 4;
            }
            0x03 => r.extend_from_slice(&[0, 0]),
            _ => r.clear(),
        }
        r
    }

    fn upload(&mut self, data: &[u8]) -> Vec<u8> {
        let mut sum: u32 = 0;
        for word in data.chunks(4) {
            let mut b = [0u8; 4];
            b[..word.len()].copy_from_slice(word);
            sum ^= u32::from_le_bytes(b);
        }
        let mut r = sum.to_be_bytes().to_vec();
        r.extend_from_slice(&[0, 0]);
        r
    }
}

fn run_bl2(session: &mut Bl2Session, dev: &mut Loader) -> Result<(), Error> {
    let mut action = session.start();
    loop {
        let (written, reply) = match &action {
            Action::Exchange(tx, _) => (0, dev.exchange(tx)),
            Action::Upload(_, _) => {
                let p = session.fip().clone();
                (p.len(), dev.upload(&p))
            }
            Action::SwitchBaud(rate) => {
                dev.host_rate = *rate;
                (0, Vec::new())
            }
            Action::Send(tx) => {
                assert_eq!(tx, &vec![0x04]);
                dev.went = true;
                (0, Vec::new())
            }
            Action::Finished(outcome) => return *outcome,
        };
        action = session.step(written, &reply);
    }
}

#[test]
fn bl2_session_switches_rate_and_runs_image() {
    let mut dev = Loader { device_rate: 115200, host_rate: 115200, ignore_switch: false, probes_left: 4, went: false };
    let mut session = Bl2Session::new(vec![1, 2, 3, 4, 5], 921600);
    assert_eq!(run_bl2(&mut session, &mut dev), Ok(()));
    assert_eq!(dev.host_rate, 921600);
    assert_eq!(dev.device_rate, 921600);
    assert_eq!(session.version(), 3);
    assert_eq!(session.checksum(), 0x0403_0204);
    assert!(dev.went);
}

#[test]
fn bl2_session_reports_failed_rate_switch() {
    let mut dev = Loader { device_rate: 115200, host_rate: 115200, ignore_switch: true, probes_left: 4, went: false };
    let mut session = Bl2Session::new(vec![1, 2, 3], 921600);
    let outcome = run_bl2(&mut session, &mut dev);
    assert_eq!(outcome, Err(Error::BaudSwitchFailed));
    assert_ne!(outcome, Err(Error::HandshakeTimeout));
    assert!(!dev.went);
}

#[test]
fn bl2_session_first_handshake_failure_is_timeout() {
    let mut dev = Loader { device_rate: 115200, host_rate: 9600, ignore_switch: false, probes_left: 4, went: false };
    let mut session = Bl2Session::new(vec![1, 2, 3], 921600);
    assert_eq!(run_bl2(&mut session, &mut dev), Err(Error::HandshakeTimeout));
}

#[test]
fn scenario_a_writes_header_then_payload_then_jump() {
    let payload: Vec<u8> = (0..64u8).collect();
    let mut rom = Rom::new(0);
    let mut session = BromSession::new(payload, 0x0020_1000, None);
    assert_eq!(session.start(), Action::Exchange(vec![0xa0], 1));
    let (outcome, log) = run_brom(&mut session, &mut rom);
    assert_eq!(outcome, Ok(()));
    let n = log.len();
    assert_eq!(
        log[n - 3],
        Action::Exchange(vec![0xd7, 0x00, 0x20, 0x10, 0x00, 0, 0, 0, 0x40, 0, 0, 0, 0], 15)
    );
    assert_eq!(log[n - 2], Action::Upload(0, 4));
    assert_eq!(log[n - 1], Action::Send(vec![0xd5, 0x00, 0x20, 0x10, 0x00]));
    assert_eq!(session.step(0, &[]), Action::Finished(Ok(())));
}

#[test]
fn session_upload_of_odd_and_empty_payloads() {
    for payload in [vec![], vec![0x11], vec![1, 2, 3]] {
        let mut rom = Rom::new(0);
        let mut session = BromSession::new(payload.clone(), 0x0020_1000, None);
        assert_eq!(run_brom(&mut session, &mut rom).0, Ok(()));
        let mut rom = Rom::new(0);
        rom.wrong_checksum = true;
        let mut session = BromSession::new(payload, 0x0020_1000, None);
        assert_eq!(run_brom(&mut session, &mut rom).0, Err(Error::ChecksumMismatch));
        assert_eq!(rom.jumped_to, None);
    }
}

#[test]
fn bl2_session_start_and_switch_bytes() {
    let mut session = Bl2Session::new(vec![1, 2, 3], 921600);
    assert_eq!(session.start(), Action::Exchange(vec![0x6d], 1));
    let magic = [0x6du8, 0x75, 0x64, 0x6c];
    for k in 0..3 {
        assert_eq!(session.step(0, &[!magic[k]]), Action::Exchange(vec![magic[k + 1]], 1));
    }
    assert_eq!(session.step(0, &[!0x6c]), Action::Exchange(vec![0x01], 7));
    assert_eq!(session.step(0, &[0x01, 0, 0, 0, 2, 0, 0]), Action::Exchange(vec![0x02, 0x00, 0x0e, 0x10, 0x00], 7));
    assert_eq!(session.step(0, &[0x02, 0x00, 0x0e, 0x10, 0x00, 0, 0]), Action::SwitchBaud(921600));
    assert_eq!(session.step(0, &[]), Action::Exchange(vec![0x6d], 1));
}
