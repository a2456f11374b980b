use mtk_uartboot::bl2::{
    Bl2, Bl2State, BAUDRATE_ACK_LEN, SEND_FIP_ACK_LEN, SEND_FIP_REPLY_LEN, VERSION_REPLY_LEN,
};
use mtk_uartboot::protocol::{chunk_end, Error};

/// A second-stage loader on an in-memory link with a baud rate on each side.
struct Stub {
    device_rate: u32,
    host_rate: u32,
    /// The device acknowledges a rate change but keeps its old rate.
    ignore_switch: bool,
    received: Vec<u8>,
    went: bool,
}

impl Stub {
    fn new() -> Stub {
        Stub { device_rate: 115200, host_rate: 115200, ignore_switch: false, received: Vec::new(), went: false }
    }

    fn probe(&mut self, b: u8) -> Option<u8> {
        if self.device_rate == self.host_rate {
            Some(!b)
        } else {
            None
        }
    }

    fn command(&mut self, tx: &[u8]) -> Vec<u8> {
        let mut r = tx.to_vec();
        match tx[0] {
            0x01 => r.extend_from_slice(&[0, 0, 0, 2, 0, 0]),
            0x02 => {
                r.extend_from_slice(&[0, 0]);
                if !self.ignore_switch {
                    self.device_rate = u32::from_be_bytes([tx[1], tx[2], tx[3], tx[4]]);
                }
            }
            0x03 => r.extend_from_slice(&[0, 0]),
            0x04 => {
                self.went = true;
                r.clear();
            }
            _ => r.clear(),
        }
        r
    }

    fn upload_reply(&mut self) -> Vec<u8> {
        let mut sum: u32 = 0;
        for word in self.received.chunks(4) {
            let mut b = [0u8; 4];
            b[..word.len()].copy_from_slice(word);
            sum ^= u32::from_le_bytes(b);
        }
        let mut r = sum.to_be_bytes().to_vec();
        r.extend_from_slice(&[0, 0]);
        r
    }
}

fn bl2_handshake(dev: &mut Bl2, stub: &mut Stub) -> Result<(), Error> {
    dev.begin_handshake();
    loop {
        let p = dev.handshake_probe();
        if dev.handshake_reply(stub.probe(p))? {
            return Ok(());
        }
    }
}

fn switch_rate(dev: &mut Bl2, stub: &mut Stub, rate: u32) -> Result<(), Error> {
    let ack = stub.command(&dev.set_baudrate_request(rate));
    assert_eq!(ack.len(), BAUDRATE_ACK_LEN);
    dev.finish_set_baudrate(&ack)?;
    stub.host_rate = rate;
    bl2_handshake(dev, stub)
}

#[test]
fn full_bl2_session() {
    let mut stub = Stub::new();
    let mut dev = Bl2::new();
    bl2_handshake(&mut dev, &mut stub).unwrap();
    let r = stub.command(&dev.version_request());
    assert_eq!(r.len(), VERSION_REPLY_LEN);
    assert_eq!(dev.finish_version(&r), Ok(2));
    switch_rate(&mut dev, &mut stub, 921600).unwrap();
    assert_eq!(dev.state_now(), Bl2State::BaudSwitched);

    let fip: Vec<u8> = (0..2500u32).map(|i| (i % 253) as u8).collect();
    let header = dev.send_fip_request(&fip);
    assert_eq!(header, vec![0x03, 0x00, 0x00, 0x09, 0xc4]);
    let ack = stub.command(&header);
    assert_eq!(ack.len(), SEND_FIP_ACK_LEN);
    dev.finish_send_fip_ack(&ack).unwrap();
    let mut start = 0;
    while start < fip.len() {
        let end = chunk_end(start, fip.len());
        stub.received.extend_from_slice(&fip[start..end]);
        start = end;
    }
    let reply = stub.upload_reply();
    assert_eq!(reply.len(), SEND_FIP_REPLY_LEN);
    let expected = u32::from_be_bytes([reply[0], reply[1], reply[2], reply[3]]);
    assert_eq!(dev.finish_send_fip(&fip, fip.len(), &reply), Ok(expected));
    stub.command(&dev.go_request());
    assert!(stub.went);
    assert_eq!(dev.state_now(), Bl2State::Executing);
}

#[test]
fn failed_resync_is_baud_switch_failure() {
    let mut stub = Stub::new();
    stub.ignore_switch = true;
    let mut dev = Bl2::new();
    bl2_handshake(&mut dev, &mut stub).unwrap();
    let outcome = switch_rate(&mut dev, &mut stub, 921600);
    assert_eq!(outcome, Err(Error::BaudSwitchFailed));
    assert_ne!(outcome, Err(Error::HandshakeTimeout));
    assert_eq!(dev.state_now(), Bl2State::Idle);
}

#[test]
fn plain_handshake_failure_is_timeout() {
    let mut stub = Stub::new();
    stub.host_rate = 9600;
    let mut dev = Bl2::new();
    assert_eq!(bl2_handshake(&mut dev, &mut stub), Err(Error::HandshakeTimeout));
}

#[test]
fn bl2_handshake_repeats() {
    let mut stub = Stub::new();
    let mut dev = Bl2::new();
    assert_eq!(bl2_handshake(&mut dev, &mut stub), Ok(()));
    assert_eq!(bl2_handshake(&mut dev, &mut stub), Ok(()));
    assert_eq!(dev.state_now(), Bl2State::Ready);
}

#[test]
fn fip_checksum_mismatch_and_short_write() {
    let mut stub = Stub::new();
    let mut dev = Bl2::new();
    bl2_handshake(&mut dev, &mut stub).unwrap();
    let fip = [1u8, 2, 3, 4, 5];
    let ack = stub.command(&dev.send_fip_request(&fip));
    dev.finish_send_fip_ack(&ack).unwrap();
    assert_eq!(dev.finish_send_fip(&fip, 5, &[0x04, 0x03, 0x02, 0x04, 0, 0]), Ok(0x0403_0204));

    bl2_handshake(&mut dev, &mut stub).unwrap();
    let ack = stub.command(&dev.send_fip_request(&fip));
    dev.finish_send_fip_ack(&ack).unwrap();
    assert_eq!(dev.finish_send_fip(&fip, 5, &[0x04, 0x03, 0x02, 0x05, 0, 0]), Err(Error::ChecksumMismatch));

    bl2_handshake(&mut dev, &mut stub).unwrap();
    let ack = stub.command(&dev.send_fip_request(&fip));
    dev.finish_send_fip_ack(&ack).unwrap();
    assert_eq!(dev.finish_send_fip(&fip, 2, &[0x04, 0x03, 0x02, 0x04, 0, 0]), Err(Error::ShortWrite));

    bl2_handshake(&mut dev, &mut stub).unwrap();
    let mut ack = stub.command(&dev.send_fip_request(&fip));
    ack[4] = 4;
    assert_eq!(dev.finish_send_fip_ack(&ack), Err(Error::ShortWrite));
}
