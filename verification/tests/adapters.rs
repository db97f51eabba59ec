use std::collections::VecDeque;

use motodiag::adapter::{AdapterPort, Elm327Transport, SlcanTransport};
use motodiag::can::{CanError, CanFrame, CanTransport};
use motodiag::serial::{SerialKLine, SerialPortIo};
use motodiag::transport::{KLineTransport, TransportError};

/// A port that hands out scripted chunks and records what is written.
#[derive(Default)]
struct ScriptedPort {
    chunks: VecDeque<Vec<u8>>,
    written: Vec<Vec<u8>>,
}

impl AdapterPort for ScriptedPort {
    fn write_all(&mut self, bytes: &[u8]) -> Result<(), CanError> {
        self.written.push(bytes.to_vec());
        Ok(())
    }
    fn read_chunk(&mut self) -> Result<Vec<u8>, CanError> {
        Ok(self.chunks.pop_front().unwrap_or_default())
    }
    fn sleep_ms(&mut self, _duration_ms: u64) {}
}

fn scripted(chunks: &[&[u8]]) -> ScriptedPort {
    ScriptedPort {
        chunks: chunks.iter().map(|c| c.to_vec()).collect(),
        written: Vec::new(),
    }
}

#[test]
fn slcan_brings_up_the_channel_and_skips_acks() {
    let port = scripted(&[b"\r", b"z\r", b"t7E8", b"3621", b"00C\rT1"]);
    let mut t = SlcanTransport::start(port, 6).unwrap();
    let frame = t.recv(100).unwrap();
    assert_eq!(frame, CanFrame::new(0x7E8, vec![0x62, 0x10, 0x0C]));
    // The rest of the buffered bytes do not make a line yet.
    assert!(matches!(t.recv(5), Err(CanError::Timeout)));
    t.send(&CanFrame::new(0x7E0, vec![0x02, 0x10, 0x01])).unwrap();
}

#[test]
fn elm327_sends_hex_lines_and_reads_bare_data() {
    let port = scripted(&[b"OK\r", b"NO DATA\r", b"62 F1 0C 1A\r>"]);
    let mut t = Elm327Transport::start(port, 0x7E0, 0x7E8).unwrap();
    let frame = t.recv(100).unwrap();
    assert_eq!(frame.id, 0x7E8);
    assert_eq!(frame.data, vec![0x62, 0xF1, 0x0C, 0x1A]);
    t.send(&CanFrame::new(0x7E0, vec![0x22, 0xF1, 0x0C])).unwrap();
}

#[test]
fn elm327_skips_lines_too_long_for_one_frame() {
    let port = scripted(&[b"00 11 22 33 44 55 66 77 88\r", b"01\r"]);
    let mut t = Elm327Transport::start(port, 0x7E0, 0x7E8).unwrap();
    assert_eq!(t.recv(100).unwrap().data, vec![0x01]);
}

#[test]
fn adapter_errors_pass_through() {
    struct Broken;
    impl AdapterPort for Broken {
        fn write_all(&mut self, _bytes: &[u8]) -> Result<(), CanError> {
            Err(CanError::Io("unplugged".into()))
        }
        fn read_chunk(&mut self) -> Result<Vec<u8>, CanError> {
            Err(CanError::Closed)
        }
        fn sleep_ms(&mut self, _duration_ms: u64) {}
    }
    assert_eq!(SlcanTransport::start(Broken, 6).err(), Some(CanError::Io("unplugged".into())));
    assert_eq!(Elm327Transport::start(Broken, 0x7E0, 0x7E8).err(), Some(CanError::Io("unplugged".into())));
}

/// A K-line port whose receive side is scripted; writes are recorded.
#[derive(Default)]
struct LoopPort {
    rx: VecDeque<u8>,
    written: Vec<u8>,
    echo: bool,
    corrupt_echo: bool,
}

impl SerialPortIo for LoopPort {
    fn write_all(&mut self, bytes: &[u8]) -> Result<(), TransportError> {
        self.written.extend_from_slice(bytes);
        if self.echo {
            for &b in bytes {
                self.rx.push_back(if self.corrupt_echo { b ^ 0x01 } else { b });
            }
        }
        Ok(())
    }
    fn read_byte(&mut self, _timeout_ms: u64) -> Result<u8, TransportError> {
        self.rx.pop_front().ok_or(TransportError::Timeout)
    }
    fn hold_break(&mut self, _duration_ms: u64) -> Result<(), TransportError> {
        Ok(())
    }
    fn set_baud(&mut self, _baud: u32) -> Result<(), TransportError> {
        Ok(())
    }
    fn clear_input(&mut self) -> Result<(), TransportError> {
        self.rx.clear();
        Ok(())
    }
    fn sleep_ms(&mut self, _duration_ms: u64) {}
}

#[test]
fn serial_kline_consumes_the_bus_echo() {
    let mut line = SerialKLine::new(LoopPort { echo: true, ..Default::default() });
    line.send(&[0x81, 0x10, 0xF1, 0x81, 0x03]).unwrap();
    // The echo was consumed: nothing is left to read.
    assert!(matches!(line.read_byte(1), Err(TransportError::Timeout)));
    assert_eq!(line.port().written, vec![0x81, 0x10, 0xF1, 0x81, 0x03]);
}

#[test]
fn serial_kline_reports_a_missing_echo() {
    let mut line = SerialKLine::new(LoopPort::default());
    assert_eq!(
        line.send(&[0x81]),
        Err(TransportError::NoEcho { sent: vec![0x81] })
    );
    line.set_consume_echo(false);
    assert_eq!(line.send(&[0x81]), Ok(()));
}

#[test]
fn serial_kline_reports_a_different_echo() {
    let mut line = SerialKLine::new(LoopPort {
        echo: true,
        corrupt_echo: true,
        ..Default::default()
    });
    assert_eq!(
        line.send(&[0x80, 0x10]),
        Err(TransportError::EchoMismatch {
            sent: vec![0x80, 0x10],
            echoed: vec![0x81, 0x11],
        })
    );
}
