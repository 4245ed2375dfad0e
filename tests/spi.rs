use std::collections::VecDeque;

use stm32boot::dfuloader::{DfuLoader, DfuLoaderError, Functions};
use stm32boot::link::{Link, LinkError};
use stm32boot::spi::SpiConnection;

/// An SPI link that answers transfers and reads from scripts, answers
/// `0xFF` everywhere once a script runs out, and records what it was asked
/// to do.
struct SpiScript {
    exchanges: VecDeque<Vec<u8>>,
    reads: VecDeque<Vec<u8>>,
    transfers: Vec<Vec<u8>>,
    writes: Vec<Vec<u8>>,
    pauses: Vec<u32>,
}

impl SpiScript {
    fn new(exchanges: Vec<Vec<u8>>, reads: Vec<Vec<u8>>) -> SpiScript {
        SpiScript {
            exchanges: exchanges.into(),
            reads: reads.into(),
            transfers: vec![],
            writes: vec![],
            pauses: vec![],
        }
    }

    fn calls(&self) -> usize {
        self.transfers.len() + self.writes.len() + self.pauses.len()
    }

    fn ack_polls(&self) -> usize {
        self.transfers.iter().filter(|t| t.as_slice() == [0x00, 0x00, 0x79]).count()
    }
}

impl Link for SpiScript {
    fn send(&mut self, bytes: &[u8]) -> Result<(), LinkError> {
        self.writes.push(bytes.to_vec());
        Ok(())
    }

    fn receive(&mut self, max: usize) -> Result<Vec<u8>, LinkError> {
        match self.reads.pop_front() {
            Some(mut v) => {
                if v.len() > max {
                    let rest = v.split_off(max);
                    self.reads.push_front(rest);
                }
                Ok(v)
            }
            None => Err(LinkError::Timeout),
        }
    }

    fn transfer(&mut self, tx: &[u8]) -> Result<Vec<u8>, LinkError> {
        self.transfers.push(tx.to_vec());
        Ok(self.exchanges.pop_front().unwrap_or_else(|| vec![0xFF; tx.len()]))
    }

    fn pause(&mut self, millis: u32) {
        self.pauses.push(millis);
    }
}

const CMD_OK: [u8; 6] = [0xA5, 0xA5, 0xA5, 0xA5, 0x79, 0xA5];
const ACKED: [u8; 3] = [0xA5, 0x79, 0xA5];
const BUSY: [u8; 3] = [0x00, 0xFF, 0x00];

fn session(exchanges: Vec<Vec<u8>>, reads: Vec<Vec<u8>>) -> SpiConnection<SpiScript> {
    SpiConnection::new(SpiScript::new(exchanges, reads))
}

#[test]
fn spi_initialize_synchronises() {
    let mut c = session(vec![vec![0x00, 0x00, 0x79, 0x00]], vec![]);
    assert!(c.initialize().is_ok());
    assert_eq!(c.link().transfers, vec![vec![0x5A, 0x00, 0x00, 0x79]]);
}

#[test]
fn spi_initialize_reports_already_synced() {
    let mut c = session(vec![vec![0x00, 0x00, 0xA5, 0x00]], vec![]);
    assert!(matches!(c.initialize(), Err(DfuLoaderError::AlreadySynced())));
}

#[test]
fn spi_initialize_reports_sync_error() {
    let mut c = session(vec![vec![0x00, 0x00, 0x1F, 0x00]], vec![]);
    assert!(matches!(c.initialize(), Err(DfuLoaderError::SyncError())));
}

#[test]
fn spi_write_unprotect_polls_until_ack() {
    let mut ex = vec![CMD_OK.to_vec()];
    ex.extend(std::iter::repeat(BUSY.to_vec()).take(12));
    ex.push(ACKED.to_vec());
    let mut c = session(ex, vec![]);
    assert!(c.write_unprotect().is_ok());
    let l = c.link();
    assert_eq!(l.transfers[0], vec![0x5A, 0x73, 0x8C, 0x00, 0x00, 0x79]);
    assert_eq!(l.ack_polls(), 13);
    let mut expected = vec![100; 10];
    expected.extend([1000, 1000]);
    assert_eq!(l.pauses, expected);
}

#[test]
fn spi_write_unprotect_times_out_after_thirty_polls() {
    let mut c = session(vec![CMD_OK.to_vec()], vec![]);
    assert!(matches!(c.write_unprotect(), Err(DfuLoaderError::Timeout())));
    let l = c.link();
    assert_eq!(l.ack_polls(), 30);
    let mut expected = vec![100; 10];
    expected.extend(vec![1000; 20]);
    assert_eq!(l.pauses, expected);
}

#[test]
fn spi_write_unprotect_tolerates_already_done_only_later() {
    let mut c = session(vec![CMD_OK.to_vec(), vec![0x00, 0xA5, 0x00]], vec![]);
    assert!(matches!(c.write_unprotect(), Err(DfuLoaderError::CommandFailed(0xA5))));
    let mut ex = vec![CMD_OK.to_vec()];
    ex.extend(std::iter::repeat(BUSY.to_vec()).take(10));
    ex.push(vec![0x00, 0xA5, 0x00]);
    ex.push(ACKED.to_vec());
    let mut c = session(ex, vec![]);
    assert!(c.write_unprotect().is_ok());
    assert_eq!(c.link().ack_polls(), 12);
}

#[test]
fn spi_command_requires_ack() {
    let mut c = session(vec![vec![0; 6]], vec![]);
    assert!(matches!(c.go(0x0800_0000), Err(DfuLoaderError::ProtocolError())));
    assert!(c.link().writes.is_empty());
}

#[test]
fn spi_read_memory_drops_dummy_byte() {
    let mut c = session(
        vec![CMD_OK.to_vec(), ACKED.to_vec(), ACKED.to_vec()],
        vec![vec![0xEE, 1, 2, 3, 4]],
    );
    assert_eq!(c.read_memory(0x0800_0000, 4).unwrap(), vec![1, 2, 3, 4]);
    let l = c.link();
    assert_eq!(l.transfers[0], vec![0x5A, 0x11, 0xEE, 0x00, 0x00, 0x79]);
    assert_eq!(l.writes, vec![vec![0x08, 0x00, 0x00, 0x00, 0x08], vec![0x03, 0xFC]]);
}

#[test]
fn spi_read_memory_refuses_zero_size() {
    let mut c = session(vec![], vec![]);
    assert!(matches!(c.read_memory(0x0800_0000, 0), Err(DfuLoaderError::ProtocolError())));
    assert_eq!(c.link().calls(), 0);
}

#[test]
fn spi_write_memory_pads_odd_blocks() {
    let mut c = session(vec![CMD_OK.to_vec(), ACKED.to_vec(), ACKED.to_vec()], vec![]);
    assert!(c.write_memory(0x0800_0000, vec![0x12, 0x34, 0x56]).is_ok());
    let block = &c.link().writes[1];
    assert_eq!(block, &vec![0x02, 0x12, 0x34, 0x56, 0xFF, 0x02 ^ 0x12 ^ 0x34 ^ 0x56 ^ 0xFF]);
    assert_eq!(block.iter().fold(0u8, |a, b| a ^ b), 0);
}

#[test]
fn spi_write_memory_leaves_even_blocks_unpadded() {
    let mut c = session(vec![CMD_OK.to_vec(), ACKED.to_vec(), ACKED.to_vec()], vec![]);
    assert!(c.write_memory(0x0800_0000, vec![0x01, 0x02]).is_ok());
    assert_eq!(c.link().writes[1], vec![0x01, 0x01, 0x02, 0x02]);
}

#[test]
fn spi_write_memory_refuses_bad_lengths() {
    let mut c = session(vec![], vec![]);
    assert!(matches!(c.write_memory(0, vec![]), Err(DfuLoaderError::ProtocolError())));
    assert!(matches!(c.write_memory(0, vec![1; 257]), Err(DfuLoaderError::ProtocolError())));
    assert_eq!(c.link().calls(), 0);
}

#[test]
fn spi_erase_all_polls_until_ack() {
    let mut c = session(
        vec![CMD_OK.to_vec(), BUSY.to_vec(), vec![0x00, 0xA5, 0x00], ACKED.to_vec()],
        vec![],
    );
    assert!(c.erase_all().is_ok());
    let l = c.link();
    assert_eq!(l.writes, vec![vec![0xFF, 0xFF, 0x00]]);
    assert_eq!(l.pauses, vec![1000, 1000]);
}

#[test]
fn spi_erase_all_reports_timeout() {
    let mut c = session(vec![CMD_OK.to_vec()], vec![]);
    assert!(matches!(c.erase_all(), Err(DfuLoaderError::Timeout())));
    assert_eq!(c.link().ack_polls(), 20);
    assert_eq!(c.link().pauses, vec![1000; 20]);
}

#[test]
fn spi_erase_all_stops_on_refusal() {
    let mut c = session(vec![CMD_OK.to_vec(), vec![0x00, 0x1F, 0x00]], vec![]);
    assert!(matches!(c.erase_all(), Err(DfuLoaderError::CommandFailed(0x1F))));
}

#[test]
fn spi_supported_functions_reports_get() {
    let mut c = session(vec![CMD_OK.to_vec(), ACKED.to_vec()], vec![vec![0x00, 0x01, 0x31, 0x00]]);
    let info = c.supported_functions().unwrap();
    assert_eq!(info.version, 0x31);
    assert_eq!(info.supported_functions, vec![Functions::Get]);
}

#[test]
fn spi_go_sends_address_and_polls() {
    let mut c = session(vec![CMD_OK.to_vec(), ACKED.to_vec()], vec![]);
    assert!(c.go(0x2000_0004).is_ok());
    let l = c.link();
    assert_eq!(l.writes, vec![vec![0x20, 0x00, 0x00, 0x04, 0x24]]);
    assert_eq!(l.transfers[1], vec![0x00, 0x00, 0x79]);
}

#[test]
fn spi_go_reports_status() {
    let mut c = session(vec![CMD_OK.to_vec(), vec![0x00, 0x1F, 0x00]], vec![]);
    assert!(matches!(c.go(0x0800_0000), Err(DfuLoaderError::CommandFailed(0x1F))));
}

#[test]
fn spi_version_and_id_are_not_available() {
    let mut c = session(vec![], vec![]);
    assert!(matches!(c.get_version(), Err(DfuLoaderError::NotImplemented())));
    assert!(matches!(c.get_id(), Err(DfuLoaderError::NotImplemented())));
    assert_eq!(c.link().calls(), 0);
}

#[test]
fn spi_write_unprotect_succeeds_on_first_phase_ack() {
    let mut c = session(vec![CMD_OK.to_vec(), BUSY.to_vec(), ACKED.to_vec()], vec![]);
    assert!(c.write_unprotect().is_ok());
    assert_eq!(c.link().ack_polls(), 2);
    assert_eq!(c.link().pauses, vec![100]);
}

#[test]
fn spi_write_unprotect_rejected_command_takes_no_polls() {
    let mut c = session(vec![vec![0; 6]], vec![]);
    assert!(matches!(c.write_unprotect(), Err(DfuLoaderError::ProtocolError())));
    assert_eq!(c.link().ack_polls(), 0);
    assert!(c.link().pauses.is_empty());
}
