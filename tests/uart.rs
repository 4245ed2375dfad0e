use std::collections::VecDeque;

use stm32boot::dfuloader::{DfuLoader, DfuLoaderError, Functions};
use stm32boot::link::{Link, LinkError};
use stm32boot::serial::SerialConnection;

/// What the scripted device does on the next read.
enum Reply {
    Bytes(Vec<u8>),
    Timeout,
    Broken,
}

/// A UART link that replays a script and records what it was asked to do.
struct ScriptedLink {
    script: VecDeque<Reply>,
    sent: Vec<Vec<u8>>,
    reads: usize,
    pauses: Vec<u32>,
}

impl ScriptedLink {
    fn new(script: Vec<Reply>) -> ScriptedLink {
        ScriptedLink { script: script.into(), sent: vec![], reads: 0, pauses: vec![] }
    }

    fn calls(&self) -> usize {
        self.sent.len() + self.reads + self.pauses.len()
    }
}

impl Link for ScriptedLink {
    fn send(&mut self, bytes: &[u8]) -> Result<(), LinkError> {
        self.sent.push(bytes.to_vec());
        Ok(())
    }

    fn receive(&mut self, max: usize) -> Result<Vec<u8>, LinkError> {
        self.reads += 1;
        match self.script.pop_front() {
            Some(Reply::Bytes(mut v)) => {
                if v.len() > max {
                    let rest = v.split_off(max);
                    self.script.push_front(Reply::Bytes(rest));
                }
                Ok(v)
            }
            Some(Reply::Broken) => {
                Err(LinkError::Io(std::io::Error::new(std::io::ErrorKind::Other, "broken")))
            }
            Some(Reply::Timeout) | None => Err(LinkError::Timeout),
        }
    }

    fn transfer(&mut self, tx: &[u8]) -> Result<Vec<u8>, LinkError> {
        self.sent.push(tx.to_vec());
        Ok(vec![0; tx.len()])
    }

    fn pause(&mut self, millis: u32) {
        self.pauses.push(millis);
    }
}

fn b(v: &[u8]) -> Reply {
    Reply::Bytes(v.to_vec())
}

fn session(script: Vec<Reply>) -> SerialConnection<ScriptedLink> {
    SerialConnection::new(ScriptedLink::new(script))
}

#[test]
fn initialize_succeeds_on_first_ack() {
    let mut c = session(vec![b(&[0x79])]);
    assert!(c.initialize().is_ok());
    let l = c.link();
    assert_eq!(l.sent, vec![vec![0x7F]]);
    assert_eq!(l.reads, 1);
    assert!(l.pauses.is_empty());
}

#[test]
fn initialize_accepts_nak() {
    let mut c = session(vec![Reply::Timeout, b(&[0x1F])]);
    assert!(c.initialize().is_ok());
    let l = c.link();
    assert_eq!(l.sent.len(), 2);
    assert_eq!(l.pauses, vec![500]);
}

#[test]
fn initialize_retries_on_other_bytes() {
    let mut c = session(vec![b(&[0x00]), b(&[0x42]), b(&[0x79])]);
    assert!(c.initialize().is_ok());
    assert_eq!(c.link().sent.len(), 3);
    assert_eq!(c.link().pauses, vec![500, 500]);
}

#[test]
fn initialize_times_out_after_ten_attempts() {
    let mut c = session(vec![]);
    assert!(matches!(c.initialize(), Err(DfuLoaderError::Timeout())));
    let l = c.link();
    assert_eq!(l.sent, vec![vec![0x7F]; 10]);
    assert_eq!(l.reads, 10);
    assert_eq!(l.pauses, vec![500; 10]);
}

#[test]
fn initialize_reports_io_failure_at_once() {
    let mut c = session(vec![Reply::Broken]);
    assert!(matches!(c.initialize(), Err(DfuLoaderError::IOError(_))));
    assert_eq!(c.link().sent.len(), 1);
    assert!(c.link().pauses.is_empty());
}

#[test]
fn read_memory_returns_the_data() {
    let data: Vec<u8> = (0..16).map(|i| 0xA0 + i as u8).collect();
    let mut c = session(vec![b(&[0x79]), b(&[0x79]), b(&[0x79]), Reply::Bytes(data.clone())]);
    let v = c.read_memory(0x0800_0000, 16).unwrap();
    assert_eq!(v, data);
    let l = c.link();
    assert_eq!(l.sent, vec![vec![0x11, 0xEE], vec![0x08, 0x00, 0x00, 0x00, 0x08], vec![0x0F, 0xF0]]);
    assert_eq!(l.reads, 4);
    assert!(l.script.is_empty());
}

#[test]
fn read_memory_gathers_fragments() {
    let mut c = session(vec![
        b(&[0x79]),
        b(&[0x79]),
        b(&[0x79]),
        b(&[1, 2, 3]),
        b(&[4]),
        b(&[5, 6, 7, 8]),
    ]);
    assert_eq!(c.read_memory(0x1FFF_C008, 8).unwrap(), vec![1, 2, 3, 4, 5, 6, 7, 8]);
    assert_eq!(c.link().sent[1], vec![0x1F, 0xFF, 0xC0, 0x08, 0x1F ^ 0xFF ^ 0xC0 ^ 0x08]);
    assert_eq!(c.link().reads, 6);
}

#[test]
fn read_memory_refuses_zero_size() {
    let mut c = session(vec![]);
    assert!(matches!(c.read_memory(0x0800_0000, 0), Err(DfuLoaderError::ProtocolError())));
    assert_eq!(c.link().calls(), 0);
}

#[test]
fn read_memory_reports_the_status_byte() {
    let mut c = session(vec![b(&[0x79]), b(&[0x1F])]);
    assert!(matches!(c.read_memory(0x0800_0000, 4), Err(DfuLoaderError::CommandFailed(0x1F))));
    assert_eq!(c.link().sent.len(), 2);
}

#[test]
fn write_memory_refuses_empty_data() {
    let mut c = session(vec![]);
    assert!(matches!(c.write_memory(0x0800_0000, vec![]), Err(DfuLoaderError::ProtocolError())));
    assert_eq!(c.link().calls(), 0);
}

#[test]
fn write_memory_refuses_oversized_data() {
    let mut c = session(vec![]);
    let r = c.write_memory(0x0800_0000, vec![0u8; 257]);
    assert!(matches!(r, Err(DfuLoaderError::ProtocolError())));
    assert_eq!(c.link().calls(), 0);
}

#[test]
fn write_memory_sends_checksummed_frame() {
    let mut c = session(vec![b(&[0x79]), b(&[0x79]), b(&[0x79])]);
    assert!(c.write_memory(0x0800_0100, vec![0x12, 0x34, 0x56]).is_ok());
    let l = c.link();
    assert_eq!(l.sent[0], vec![0x31, 0xCE]);
    assert_eq!(l.sent[1], vec![0x08, 0x00, 0x01, 0x00, 0x09]);
    assert_eq!(l.sent[2], vec![0x02, 0x12, 0x34, 0x56, 0x02 ^ 0x12 ^ 0x34 ^ 0x56]);
}

#[test]
fn write_memory_accepts_full_page() {
    let mut c = session(vec![b(&[0x79]), b(&[0x79]), b(&[0x79])]);
    assert!(c.write_memory(0x0800_0000, vec![0xAB; 256]).is_ok());
    let frame = &c.link().sent[2];
    assert_eq!(frame.len(), 258);
    assert_eq!(frame[0], 0xFF);
    assert_eq!(frame[257], 0xFF);
}

#[test]
fn get_version_reads_options() {
    let mut c = session(vec![b(&[0x79]), b(&[0x31, 0x12, 0x34, 0x79])]);
    let o = c.get_version().unwrap();
    assert_eq!(o.version, 0x31);
    assert_eq!(o.options, 0x1234);
    assert_eq!(c.link().sent, vec![vec![0x01, 0xFE]]);
}

#[test]
fn get_version_requires_closing_ack() {
    let mut c = session(vec![b(&[0x79]), b(&[0x31, 0x12, 0x34, 0x1F])]);
    assert!(matches!(c.get_version(), Err(DfuLoaderError::ProtocolError())));
}

#[test]
fn supported_functions_decodes_every_opcode() {
    let mut c = session(vec![
        b(&[0x79]),
        b(&[0x04]),
        b(&[0x31, 0x00, 0x01, 0x44, 0x99, 0x79]),
    ]);
    let info = c.supported_functions().unwrap();
    assert_eq!(info.version, 0x31);
    assert_eq!(
        info.supported_functions,
        vec![Functions::Get, Functions::GetVersion, Functions::ExtendedErase, Functions::Unknown(0x99)]
    );
    assert_eq!(c.link().sent, vec![vec![0x00, 0xFF]]);
}

#[test]
fn supported_functions_requires_closing_ack() {
    let mut c = session(vec![b(&[0x79]), b(&[0x01]), b(&[0x31, 0x00, 0x00])]);
    assert!(matches!(c.supported_functions(), Err(DfuLoaderError::ProtocolError())));
}

#[test]
fn get_id_reads_big_endian_id() {
    let mut c = session(vec![b(&[0x79]), b(&[0x01]), b(&[0x04, 0x13, 0x79])]);
    assert_eq!(c.get_id().unwrap().chipid, 0x0413);
    assert_eq!(c.link().sent, vec![vec![0x02, 0xFD]]);
}

#[test]
fn get_id_refuses_other_lengths() {
    let mut c = session(vec![b(&[0x79]), b(&[0x00]), b(&[0x04, 0x79])]);
    assert!(matches!(c.get_id(), Err(DfuLoaderError::ProtocolError())));
    let mut c = session(vec![b(&[0x79]), b(&[0x02]), b(&[0x04, 0x13, 0x00, 0x79])]);
    assert!(matches!(c.get_id(), Err(DfuLoaderError::ProtocolError())));
}

#[test]
fn write_unprotect_is_not_available() {
    let mut c = session(vec![]);
    assert!(matches!(c.write_unprotect(), Err(DfuLoaderError::NotImplemented())));
    assert_eq!(c.link().calls(), 0);
}

#[test]
fn erase_all_polls_through_timeouts() {
    let mut c = session(vec![b(&[0x79]), Reply::Timeout, Reply::Timeout, b(&[0x79])]);
    assert!(c.erase_all().is_ok());
    let l = c.link();
    assert_eq!(l.sent, vec![vec![0x44, 0xBB], vec![0xFF, 0xFF, 0x00]]);
    assert_eq!(l.pauses, vec![1000, 1000]);
}

#[test]
fn erase_all_times_out_after_twenty_polls() {
    let mut c = session(vec![b(&[0x79])]);
    assert!(matches!(c.erase_all(), Err(DfuLoaderError::Timeout())));
    assert_eq!(c.link().pauses, vec![1000; 20]);
    assert_eq!(c.link().reads, 21);
}

#[test]
fn erase_all_stops_on_refusal() {
    let mut c = session(vec![b(&[0x79]), Reply::Timeout, b(&[0x1F])]);
    assert!(matches!(c.erase_all(), Err(DfuLoaderError::CommandFailed(0x1F))));
    assert_eq!(c.link().pauses, vec![1000]);
}

#[test]
fn go_sends_address() {
    let mut c = session(vec![b(&[0x79]), b(&[0x79])]);
    assert!(c.go(0x0800_0000).is_ok());
    assert_eq!(c.link().sent, vec![vec![0x21, 0xDE], vec![0x08, 0x00, 0x00, 0x00, 0x08]]);
}

#[test]
fn go_reports_io_failure() {
    let mut c = session(vec![b(&[0x79]), Reply::Broken]);
    assert!(matches!(c.go(0x0800_0000), Err(DfuLoaderError::IOError(_))));
}

#[test]
fn into_link_gives_the_link_back() {
    let mut c = session(vec![b(&[0x79])]);
    assert!(c.initialize().is_ok());
    let l = c.into_link();
    assert_eq!(l.sent.len(), 1);
}

#[test]
fn read_memory_stops_at_io_failure() {
    let mut c = session(vec![b(&[0x79]), b(&[0x79]), b(&[0x79]), b(&[1, 2]), Reply::Broken, b(&[3, 4])]);
    assert!(matches!(c.read_memory(0x0800_0000, 4), Err(DfuLoaderError::IOError(_))));
    assert_eq!(c.link().reads, 5);
    assert_eq!(c.link().script.len(), 1);
}

#[test]
fn write_memory_stops_when_address_is_refused() {
    let mut c = session(vec![b(&[0x79]), b(&[0x1F])]);
    assert!(matches!(c.write_memory(0x0800_0000, vec![1, 2, 3]), Err(DfuLoaderError::CommandFailed(0x1F))));
    assert_eq!(c.link().sent.len(), 2);
}

#[test]
fn supported_functions_reads_whole_answer_before_failing() {
    let mut c = session(vec![b(&[0x79]), b(&[0x02]), b(&[0x31, 0x00, 0x01, 0x1F]), b(&[0x55])]);
    assert!(matches!(c.supported_functions(), Err(DfuLoaderError::ProtocolError())));
    assert_eq!(c.link().script.len(), 1);
}
