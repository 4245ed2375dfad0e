//! The protocol engine for the SPI transport: every command travels in a
//! full-duplex frame that opens with a sync byte, and each step that the
//! device must confirm is closed by an explicit ack frame.

use vstd::prelude::*;
use crate::dfuloader::{
    BootLoaderInfo, BootloaderChipId, BootloaderOptions, DfuLoader, DfuLoaderError, Functions,
};
use crate::link::{Channel, Fault, Link, gained, reports_fault};
use crate::serial::{mass_erase_bytes, refused, status_outcome};
use crate::wire::{
    ACK, ALREADY_DONE, BUSY, SPI_SYNC, address_bytes, address_frame, size_bytes, size_frame,
    spi_data_block, spi_data_bytes,
};

verus! {

broadcast use {crate::link::lemma_gained_concat, crate::link::lemma_gained_self};

/// Polls of the first phase of write-unprotect, while the device resets.
pub const UNPROTECT_FAST_POLLS: u32 = 10;

/// Pause after a poll of that phase, in milliseconds.
pub const FAST_POLL_MILLIS: u32 = 100;

/// Polls of write-unprotect in all.
pub const UNPROTECT_POLLS: u32 = 30;

/// Polls of a mass erase.
pub const ERASE_POLLS: u32 = 20;

/// Pause after a poll of the slow phase, in milliseconds.
pub const SLOW_POLL_MILLIS: u32 = 1000;

/// The frame that carries `opcode`: sync byte, opcode, complement, and
/// three bytes during which the device answers.
pub open spec fn spi_command_bytes(opcode: u8) -> Seq<u8> {
    seq![SPI_SYNC, opcode, opcode ^ 0xFF, 0x00u8, 0x00u8, ACK]
}

/// The frame that asks the device for the status of the last step.
pub open spec fn ack_frame_bytes() -> Seq<u8> {
    seq![0x00u8, 0x00u8, ACK]
}

/// The frame that opens an SPI session.
pub open spec fn spi_sync_bytes() -> Seq<u8> {
    seq![SPI_SYNC, 0x00u8, 0x00u8, ACK]
}

/// `k` ack frames in a row.
pub open spec fn ack_frames(k: nat) -> Seq<u8>
    decreases k,
{
    if k == 0 {
        Seq::empty()
    } else {
        ack_frames((k - 1) as nat) + ack_frame_bytes()
    }
}

/// The pause after poll `i` when the first `fast` polls are fast ones.
pub open spec fn poll_wait(fast: nat, i: int) -> u32 {
    if i < fast {
        FAST_POLL_MILLIS
    } else {
        SLOW_POLL_MILLIS
    }
}

/// The pauses after the first `k` polls.
pub open spec fn poll_waits(fast: nat, k: nat) -> Seq<u32> {
    Seq::new(k, |i: int| poll_wait(fast, i))
}

/// Whether status `s` on poll `i` is waited out: `BUSY` always,
/// `ALREADY_DONE` once the fast polls are over.
pub open spec fn tolerated(fast: nat, i: int, s: u8) -> bool {
    s == BUSY || (i >= fast && s == ALREADY_DONE)
}

/// The status byte of poll `i` among the replies `dr` to ack frames.
pub open spec fn poll_status(dr: Seq<u8>, i: int) -> u8 {
    dr[3 * i + 1]
}

/// A run of up to `total` polls of the ack frame, `fast` of them fast,
/// without link faults: every poll that was waited out is followed by its
/// pause; the first ACK succeeds, the first status that is not waited out
/// fails with it, and when the polls run out the result is a timeout.
pub open spec fn poll_run(fast: nat, total: nat, ds: Seq<u8>, dr: Seq<u8>, dp: Seq<u32>, r: Result<(), DfuLoaderError>) -> bool {
    let p = dp.len();
    &&& dp == poll_waits(fast, p)
    &&& forall|i: int| 0 <= i < p ==> tolerated(fast, i, #[trigger] poll_status(dr, i))
    &&& {
        ||| p == total && dr.len() == 3 * total && ds == ack_frames(total) && (r matches Err(e)
            && e is Timeout)
        ||| p < total && dr.len() == 3 * (p + 1) && ds == ack_frames(p + 1) && if poll_status(
            dr,
            p as int,
        ) == ACK {
            r is Ok
        } else {
            refused(poll_status(dr, p as int), r) && !tolerated(fast, p as int, poll_status(dr, p as int))
        }
    }
}

/// A command frame that the device did not accept: its fifth reply byte is
/// not ACK.
pub open spec fn command_rejected<T>(opcode: u8, ds: Seq<u8>, dr: Seq<u8>, r: Result<T, DfuLoaderError>) -> bool {
    dr.len() == 6 && dr[4] != ACK && (r matches Err(e) && e is ProtocolError) && ds
        == spi_command_bytes(opcode)
}

/// The SPI handshake without link faults: the third reply byte decides.
pub open spec fn spi_sync_run(ds: Seq<u8>, dr: Seq<u8>, r: Result<(), DfuLoaderError>) -> bool {
    &&& ds == spi_sync_bytes()
    &&& dr.len() == 4
    &&& dr[2] == ACK ==> r is Ok
    &&& dr[2] == ALREADY_DONE ==> (r matches Err(e) && e is AlreadySynced)
    &&& dr[2] != ACK && dr[2] != ALREADY_DONE ==> (r matches Err(e) && e is SyncError)
}

/// Go over SPI without link faults, from what came back.
pub open spec fn spi_go_run(address: u32, ds: Seq<u8>, dr: Seq<u8>, r: Result<(), DfuLoaderError>) -> bool {
    ||| command_rejected(0x21, ds, dr, r)
    ||| dr.len() == 9 && dr[4] == ACK && status_outcome(dr[7], r) && ds == spi_command_bytes(0x21)
        + address_bytes(address) + ack_frame_bytes()
}

/// Read Memory over SPI without link faults, from what came back.
pub open spec fn spi_read_memory_run(address: u32, size: u8, ds: Seq<u8>, dr: Seq<u8>, r: Result<Vec<u8>, DfuLoaderError>) -> bool {
    ||| command_rejected(0x11, ds, dr, r)
    ||| dr.len() == 9 && dr[4] == ACK && refused(dr[7], r) && ds == spi_command_bytes(0x11)
        + address_bytes(address) + ack_frame_bytes()
    ||| dr.len() == 12 && dr[4] == ACK && dr[7] == ACK && refused(dr[10], r) && ds
        == spi_command_bytes(0x11) + address_bytes(address) + ack_frame_bytes() + size_bytes(size)
        + ack_frame_bytes()
    ||| dr.len() == 13 + size && dr[4] == ACK && dr[7] == ACK && dr[10] == ACK && (r matches Ok(v)
        && v@ == dr.subrange(13, dr.len() as int)) && ds == spi_command_bytes(0x11)
        + address_bytes(address) + ack_frame_bytes() + size_bytes(size) + ack_frame_bytes()
}

/// Write Memory over SPI without link faults, from what came back.
pub open spec fn spi_write_memory_run(address: u32, data: Seq<u8>, ds: Seq<u8>, dr: Seq<u8>, r: Result<(), DfuLoaderError>) -> bool {
    ||| command_rejected(0x31, ds, dr, r)
    ||| dr.len() == 9 && dr[4] == ACK && refused(dr[7], r) && ds == spi_command_bytes(0x31)
        + address_bytes(address) + ack_frame_bytes()
    ||| dr.len() == 12 && dr[4] == ACK && dr[7] == ACK && status_outcome(dr[10], r) && ds
        == spi_command_bytes(0x31) + address_bytes(address) + ack_frame_bytes() + spi_data_bytes(
        data,
    ) + ack_frame_bytes()
}

/// Get over SPI without link faults: after the command, a block of
/// `dr[7] + 1` bytes whose first is the version, then an ack frame.
pub open spec fn spi_get_run(ds: Seq<u8>, dr: Seq<u8>, r: Result<BootLoaderInfo, DfuLoaderError>) -> bool {
    ||| command_rejected(0x00, ds, dr, r)
    ||| dr.len() >= 8 && dr[4] == ACK && dr.len() == 12 + dr[7] && ds == spi_command_bytes(0x00)
        + ack_frame_bytes() && if dr[dr.len() - 2] == ACK {
        r matches Ok(info) && info.version == dr[8] && info.supported_functions@ == seq![
            Functions::Get,
        ]
    } else {
        refused(dr[dr.len() - 2], r)
    }
}

/// Write Unprotect without link faults: the command, then thirty polls,
/// the first ten fast.
pub open spec fn spi_unprotect_run(ds: Seq<u8>, dr: Seq<u8>, dp: Seq<u32>, r: Result<(), DfuLoaderError>) -> bool {
    ||| command_rejected(0x73, ds, dr, r) && dp.len() == 0
    ||| dr.len() >= 6 && dr[4] == ACK && ds.len() >= 6 && ds.subrange(0, 6) == spi_command_bytes(
        0x73,
    ) && poll_run(
        UNPROTECT_FAST_POLLS as nat,
        UNPROTECT_POLLS as nat,
        ds.subrange(6, ds.len() as int),
        dr.subrange(6, dr.len() as int),
        dp,
        r,
    )
}

/// A mass erase over SPI without link faults: the command, the erase
/// payload, then twenty slow polls.
pub open spec fn spi_erase_run(ds: Seq<u8>, dr: Seq<u8>, dp: Seq<u32>, r: Result<(), DfuLoaderError>) -> bool {
    ||| command_rejected(0x44, ds, dr, r) && dp.len() == 0
    ||| dr.len() >= 6 && dr[4] == ACK && ds.len() >= 9 && ds.subrange(0, 9) == spi_command_bytes(
        0x44,
    ) + mass_erase_bytes() && poll_run(
        0,
        ERASE_POLLS as nat,
        ds.subrange(9, ds.len() as int),
        dr.subrange(6, dr.len() as int),
        dp,
        r,
    )
}

/// A session with the bootloader over an SPI link.
pub struct SpiConnection<L: Link> {
    channel: Channel<L>,
}

impl<L: Link> SpiConnection<L> {
    /// Every byte clocked out to the device so far.
    pub closed spec fn sent(&self) -> Seq<u8> {
        self.channel.sent()
    }

    /// Every byte received from the device so far.
    pub closed spec fn received(&self) -> Seq<u8> {
        self.channel.received()
    }

    /// Every pause taken so far, in milliseconds.
    pub closed spec fn pauses(&self) -> Seq<u32> {
        self.channel.pauses()
    }

    /// How many operations were asked of the link so far.
    pub closed spec fn link_calls(&self) -> nat {
        self.channel.link_calls()
    }

    /// How many link operations failed so far.
    pub closed spec fn faults(&self) -> nat {
        self.channel.faults()
    }

    /// The value of `link_calls` right after the last failed operation.
    pub closed spec fn fault_call(&self) -> nat {
        self.channel.fault_call()
    }

    /// How the last failed link operation failed.
    pub closed spec fn last_fault(&self) -> Fault {
        self.channel.last_fault()
    }

    /// Whether, since `before`, exactly one link operation failed, it was
    /// the last one asked of the link, and `r` reports it.
    pub open spec fn failed_since<T>(&self, before: &Self, r: Result<T, DfuLoaderError>) -> bool {
        &&& self.faults() == before.faults() + 1
        &&& self.fault_call() == self.link_calls()
        &&& match r {
            Err(e) => reports_fault(self.last_fault(), e),
            Ok(_) => false,
        }
    }

    /// Whether the transcript of `self` extends that of `before`.
    pub open spec fn extends(&self, before: &Self) -> bool {
        &&& before.sent().is_prefix_of(self.sent())
        &&& before.received().is_prefix_of(self.received())
        &&& before.pauses().is_prefix_of(self.pauses())
    }

    /// A session over `link`, before the handshake.
    pub fn new(link: L) -> (r: Self)
        ensures
            r.sent() == Seq::<u8>::empty(),
            r.received() == Seq::<u8>::empty(),
            r.pauses() == Seq::<u32>::empty(),
            r.link_calls() == 0,
            r.faults() == 0,
    {
        SpiConnection { channel: Channel::new(link) }
    }

    /// The link the session drives.
    pub fn link(&self) -> &L {
        self.channel.link()
    }

    /// Ends the session and gives the link back.
    pub fn into_link(self) -> L {
        self.channel.into_link()
    }

    /// Sends the frame of `opcode`; the device must answer ACK in the
    /// fifth byte. Hands back the reply as well.
    fn send_command(&mut self, opcode: u8) -> (r: (Result<(), DfuLoaderError>, Ghost<Seq<u8>>))
        ensures
            final(self).link_calls() == old(self).link_calls() + 1,
            final(self).pauses() == old(self).pauses(),
            final(self).faults() == old(self).faults() ==> r.1@.len() == 6 && final(self).sent()
                == old(self).sent() + spi_command_bytes(opcode) && final(self).received() == old(
                self).received() + r.1@ && (r.1@[4] == ACK <==> r.0 is Ok) && (r.1@[4] != ACK ==> (
            r.0 matches Err(e) && e is ProtocolError)),
            final(self).faults() != old(self).faults() ==> final(self).failed_since(old(self), r.0)
                && final(self).sent() == old(self).sent() && final(self).received() == old(
                self).received(),
    {
        let tx: Vec<u8> = vec![SPI_SYNC, opcode, opcode ^ 0xFF, 0x00, 0x00, ACK];
        assert(tx@ == spi_command_bytes(opcode));
        let rx = match self.channel.transfer(tx.as_slice()) {
            Ok(rx) => rx,
            Err(e) => {
                return (Err(e), Ghost(Seq::empty()));
            },
        };
        if rx[4] != ACK {
            return (Err(DfuLoaderError::ProtocolError()), Ghost(rx@));
        }
        (Ok(()), Ghost(rx@))
    }

    /// Exchanges an ack frame; the second byte that comes back is the
    /// status of the last step. Hands back the reply as well.
    fn ack_frame(&mut self) -> (r: (Result<(), DfuLoaderError>, Ghost<Seq<u8>>))
        ensures
            final(self).link_calls() == old(self).link_calls() + 1,
            final(self).pauses() == old(self).pauses(),
            final(self).faults() == old(self).faults() ==> r.1@.len() == 3 && final(self).sent()
                == old(self).sent() + ack_frame_bytes() && final(self).received() == old(
                self).received() + r.1@ && status_outcome(r.1@[1], r.0),
            final(self).faults() != old(self).faults() ==> final(self).failed_since(old(self), r.0)
                && final(self).sent() == old(self).sent() && final(self).received() == old(
                self).received(),
    {
        let tx: Vec<u8> = vec![0x00, 0x00, ACK];
        assert(tx@ == ack_frame_bytes());
        let rx = match self.channel.transfer(tx.as_slice()) {
            Ok(rx) => rx,
            Err(e) => {
                return (Err(e), Ghost(Seq::empty()));
            },
        };
        if rx[1] != ACK {
            return (Err(DfuLoaderError::CommandFailed(rx[1])), Ghost(rx@));
        }
        (Ok(()), Ghost(rx@))
    }

    /// Reads a block whose length the device announces: one reserved byte,
    /// then `length - 1`, then the data.
    fn read_variable_block(&mut self) -> (r: Result<Vec<u8>, DfuLoaderError>)
        ensures
            final(self).link_calls() >= old(self).link_calls(),
            final(self).sent() == old(self).sent(),
            final(self).pauses() == old(self).pauses(),
            old(self).received().is_prefix_of(final(self).received()),
            final(self).faults() == old(self).faults() ==> (r matches Ok(v) && 1 <= v@.len() <= 256
                && final(self).received() == old(self).received() + seq![
                final(self).received()[old(self).received().len() as int],
                (v@.len() - 1) as u8,
            ] + v@),
            final(self).faults() != old(self).faults() ==> final(self).failed_since(old(self), r),
    {
        let header = self.channel.read_exact(2)?;
        let len: usize = header[1] as usize + 1;
        let ghost r1 = self.received();
        let data = match self.channel.read_exact(len) {
            Ok(d) => d,
            Err(e) => {
                assert(old(self).received().is_prefix_of(self.received()));
                return Err(e);
            },
        };
        assert(header@ == seq![header@[0], (data@.len() - 1) as u8]);
        assert(self.received() == old(self).received() + seq![header@[0], (data@.len() - 1) as u8]
            + data@);
        Ok(data)
    }

    /// Reads `size` bytes, after the dummy byte that the full-duplex
    /// exchange puts in front of them.
    fn read_block(&mut self, size: usize) -> (r: Result<Vec<u8>, DfuLoaderError>)
        requires
            size < 256,
        ensures
            final(self).link_calls() >= old(self).link_calls(),
            final(self).sent() == old(self).sent(),
            final(self).pauses() == old(self).pauses(),
            final(self).faults() == old(self).faults() ==> (r matches Ok(v) && v@.len() == size
                && final(self).received() == old(self).received() + seq![
                final(self).received()[old(self).received().len() as int],
            ] + v@),
            final(self).faults() != old(self).faults() ==> final(self).failed_since(old(self), r)
                && final(self).received() == old(self).received(),
    {
        let raw = self.channel.read_exact(size + 1)?;
        let mut data: Vec<u8> = Vec::new();
        let mut i: usize = 1;
        while i < raw.len()
            invariant
                raw@.len() == size + 1,
                1 <= i <= raw@.len(),
                data@ == raw@.subrange(1, i as int),
            decreases raw@.len() - i,
        {
            data.push(raw[i]);
            i = i + 1;
        }
        assert(raw@ == seq![raw@[0]] + data@);
        Ok(data)
    }

    /// Polls the ack frame up to `total` times, the first `fast` of them
    /// with short pauses while only `BUSY` is waited out, the rest with long
    /// pauses while `BUSY` and `ALREADY_DONE` are.
    fn poll_ack(&mut self, fast: u32, total: u32) -> (r: Result<(), DfuLoaderError>)
        requires
            fast <= total,
        ensures
            final(self).link_calls() >= old(self).link_calls(),
            final(self).extends(old(self)),
            final(self).faults() == old(self).faults() ==> poll_run(
                fast as nat,
                total as nat,
                gained(old(self).sent(), final(self).sent()),
                gained(old(self).received(), final(self).received()),
                gained(old(self).pauses(), final(self).pauses()),
                r,
            ),
            final(self).faults() != old(self).faults() ==> final(self).failed_since(old(self), r),
    {
        let ghost s0 = self.sent();
        let ghost r0 = self.received();
        let ghost p0 = self.pauses();
        let ghost mut dr: Seq<u8> = Seq::empty();
        assert(s0 + ack_frames(0) == s0);
        assert(r0 + dr == r0);
        assert(p0 + poll_waits(fast as nat, 0) == p0);
        let mut done: u32 = 0;
        while done < total
            invariant
                done <= total,
                fast <= total,
                self.link_calls() >= old(self).link_calls(),
                self.faults() == old(self).faults(),
                s0 == old(self).sent(),
                r0 == old(self).received(),
                p0 == old(self).pauses(),
                self.sent() == s0 + ack_frames(done as nat),
                self.received() == r0 + dr,
                self.pauses() == p0 + poll_waits(fast as nat, done as nat),
                dr.len() == 3 * done,
                forall|i: int| 0 <= i < done ==> tolerated(fast as nat, i, #[trigger] poll_status(dr, i)),
            decreases total - done,
        {
            let ghost dr0 = dr;
            let (res, rx) = self.ack_frame();
            match res {
                Ok(()) => {
                    proof {
                        dr = dr0 + rx@;
                        assert forall|i: int| 0 <= i < done implies poll_status(dr, i)
                            == poll_status(dr0, i) by {}
                        assert(poll_status(dr, done as int) == rx@[1]);
                        assert(self.sent() == s0 + ack_frames((done + 1) as nat));
                        assert(self.received() == r0 + dr);
                        assert(self.pauses() == p0 + poll_waits(fast as nat, done as nat));
                    }
                    return Ok(());
                },
                Err(DfuLoaderError::CommandFailed(b)) => {
                    proof {
                        dr = dr0 + rx@;
                        assert forall|i: int| 0 <= i < done implies poll_status(dr, i)
                            == poll_status(dr0, i) by {}
                        assert(poll_status(dr, done as int) == rx@[1]);
                        assert(self.sent() == s0 + ack_frames((done + 1) as nat));
                        assert(self.received() == r0 + dr);
                        assert(self.pauses() == p0 + poll_waits(fast as nat, done as nat));
                    }
                    let tolerated = b == BUSY || (done >= fast && b == ALREADY_DONE);
                    if !tolerated {
                        return Err(DfuLoaderError::CommandFailed(b));
                    }
                },
                Err(e) => {
                    return Err(e);
                },
            }
            let millis: u32 = if done < fast {
                FAST_POLL_MILLIS
            } else {
                SLOW_POLL_MILLIS
            };
            self.channel.pause(millis);
            assert(poll_waits(fast as nat, (done + 1) as nat) == poll_waits(fast as nat, done as nat).push(millis));
            done = done + 1;
        }
        Err(DfuLoaderError::Timeout())
    }
}

impl<L: Link> DfuLoader for SpiConnection<L> {
    /// Exchanges the sync frame; the third byte that comes back tells
    /// whether the device synchronised now, was already synchronised, or
    /// did not answer.
    fn initialize(&mut self) -> (r: Result<(), DfuLoaderError>)
        ensures
            final(self).pauses() == old(self).pauses(),
            final(self).extends(old(self)),
            final(self).faults() == old(self).faults() ==> spi_sync_run(
                gained(old(self).sent(), final(self).sent()),
                gained(old(self).received(), final(self).received()),
                r,
            ),
            final(self).faults() != old(self).faults() ==> final(self).failed_since(old(self), r),
    {
        let tx: Vec<u8> = vec![SPI_SYNC, 0x00, 0x00, ACK];
        assert(tx@ == spi_sync_bytes());
        let rx = self.channel.transfer(tx.as_slice())?;
        if rx[2] == ALREADY_DONE {
            return Err(DfuLoaderError::AlreadySynced());
        }
        if rx[2] != ACK {
            return Err(DfuLoaderError::SyncError());
        }
        Ok(())
    }

    /// Not available over SPI.
    fn get_version(&mut self) -> (r: Result<BootloaderOptions, DfuLoaderError>)
        ensures
            r matches Err(e) && e is NotImplemented,
            final(self).link_calls() == old(self).link_calls(),
            final(self).sent() == old(self).sent(),
            final(self).received() == old(self).received(),
            final(self).pauses() == old(self).pauses(),
    {
        Err(DfuLoaderError::NotImplemented())
    }

    /// Get: over SPI the device answers with a block whose first byte is
    /// the protocol version; only the Get command itself is reported.
    fn supported_functions(&mut self) -> (r: Result<BootLoaderInfo, DfuLoaderError>)
        ensures
            final(self).pauses() == old(self).pauses(),
            final(self).extends(old(self)),
            final(self).faults() == old(self).faults() ==> spi_get_run(
                gained(old(self).sent(), final(self).sent()),
                gained(old(self).received(), final(self).received()),
                r,
            ),
            final(self).faults() != old(self).faults() ==> final(self).failed_since(old(self), r),
    {
        let ghost s0 = self.sent();
        let ghost r0 = self.received();
        let (c, crx) = self.send_command(0x00);
        match c {
            Ok(()) => {},
            Err(e) => {
                return Err(e);
            },
        }
        let ghost r1 = self.received();
        let data = match self.read_variable_block() {
            Ok(d) => d,
            Err(e) => {
                return Err(e);
            },
        };
        let ghost blk = seq![self.received()[r1.len() as int], (data@.len() - 1) as u8] + data@;
        assert(self.received() == r1 + blk);
        assert(blk[1] == (data@.len() - 1) as u8);
        assert(blk[2] == data@[0]);
        let ghost r2 = self.received();
        let (a, arx) = self.ack_frame();
        match a {
            Ok(()) => {},
            Err(DfuLoaderError::CommandFailed(b)) => {},
            Err(e) => {
                return Err(e);
            },
        }
        let ghost dr = crx@ + blk + arx@;
        assert(self.received() == r0 + dr);
        assert(self.sent() == s0 + (spi_command_bytes(0x00) + ack_frame_bytes()));
        assert(dr[dr.len() - 2] == arx@[1]);
        assert(dr[8] == data@[0]);
        assert(dr[7] == (data@.len() - 1) as u8);
        assert(dr[4] == ACK);
        match a {
            Ok(()) => {
                let mut functions: Vec<Functions> = Vec::new();
                functions.push(Functions::Get);
                assert(functions@ == seq![Functions::Get]);
                Ok(BootLoaderInfo { version: data[0], supported_functions: functions })
            },
            Err(e) => Err(e),
        }
    }

    /// Not available over SPI.
    fn get_id(&mut self) -> (r: Result<BootloaderChipId, DfuLoaderError>)
        ensures
            r matches Err(e) && e is NotImplemented,
            final(self).link_calls() == old(self).link_calls(),
            final(self).sent() == old(self).sent(),
            final(self).received() == old(self).received(),
            final(self).pauses() == old(self).pauses(),
    {
        Err(DfuLoaderError::NotImplemented())
    }

    /// Write Unprotect: the device resets meanwhile, so the ack frame is
    /// polled through `BUSY` ten times with short pauses, then through
    /// `BUSY` and `ALREADY_DONE` twenty times with long ones; the first ACK
    /// ends the operation.
    fn write_unprotect(&mut self) -> (r: Result<(), DfuLoaderError>)
        ensures
            final(self).extends(old(self)),
            final(self).faults() == old(self).faults() ==> spi_unprotect_run(
                gained(old(self).sent(), final(self).sent()),
                gained(old(self).received(), final(self).received()),
                gained(old(self).pauses(), final(self).pauses()),
                r,
            ),
            final(self).faults() != old(self).faults() ==> final(self).failed_since(old(self), r),
    {
        let ghost s0 = self.sent();
        let ghost r0 = self.received();
        let ghost p0 = self.pauses();
        let (c, crx) = self.send_command(0x73);
        match c {
            Ok(()) => {},
            Err(e) => {
                return Err(e);
            },
        }
        let ghost s1 = self.sent();
        let ghost r1 = self.received();
        let r = self.poll_ack(UNPROTECT_FAST_POLLS, UNPROTECT_POLLS);
        proof {
            let ds = gained(s1, self.sent());
            let dr = gained(r1, self.received());
            assert(self.sent() =~= s1 + ds);
            assert(self.received() =~= r1 + dr);
            assert(self.pauses() =~= p0 + gained(p0, self.pauses()));
            assert(self.sent() == s0 + (spi_command_bytes(0x73) + ds));
            assert(self.received() == r0 + (crx@ + dr));
            assert((spi_command_bytes(0x73) + ds).subrange(6, 6 + ds.len() as int) == ds);
            assert((spi_command_bytes(0x73) + ds).subrange(0, 6) == spi_command_bytes(0x73));
            assert((crx@ + dr).subrange(6, 6 + dr.len() as int) == dr);
        }
        r
    }

    /// Read Memory: a size of zero is refused before any exchange; the
    /// data follows the dummy byte of the last exchange.
    fn read_memory(&mut self, address: u32, size: u8) -> (r: Result<Vec<u8>, DfuLoaderError>)
        ensures
            final(self).pauses() == old(self).pauses(),
            final(self).extends(old(self)),
            size == 0 <==> final(self).link_calls() == old(self).link_calls(),
            size == 0 ==> (r matches Err(e) && e is ProtocolError) && final(self).sent() == old(
                self).sent() && final(self).received() == old(self).received(),
            size >= 1 && final(self).faults() == old(self).faults() ==> spi_read_memory_run(
                address,
                size,
                gained(old(self).sent(), final(self).sent()),
                gained(old(self).received(), final(self).received()),
                r,
            ),
            final(self).faults() != old(self).faults() ==> final(self).failed_since(old(self), r)
                && gained(old(self).sent(), final(self).sent()).is_prefix_of(spi_command_bytes(0x11) + address_bytes(address) + ack_frame_bytes() + size_bytes(size)
                + ack_frame_bytes()),
    {
        if size == 0 {
            return Err(DfuLoaderError::ProtocolError());
        }
        let ghost s0 = self.sent();
        let ghost r0 = self.received();
        let ghost req = spi_command_bytes(0x11) + address_bytes(address) + ack_frame_bytes() + size_bytes(size) + ack_frame_bytes();
        assert(self.sent() == s0 + Seq::<u8>::empty());
        assert(Seq::<u8>::empty().is_prefix_of(req));
        let (c, crx) = self.send_command(0x11);
        match c {
            Ok(()) => {},
            Err(e) => {
                return Err(e);
            },
        }
        assert(self.sent() == s0 + (spi_command_bytes(0x11)));
        assert((spi_command_bytes(0x11)).is_prefix_of(req));
        let addr = address_frame(address);
        match self.channel.send(addr.as_slice()) {
            Ok(()) => {},
            Err(e) => {
                return Err(e);
            },
        }
        assert(self.sent() == s0 + (spi_command_bytes(0x11) + address_bytes(address)));
        assert((spi_command_bytes(0x11) + address_bytes(address)).is_prefix_of(req));
        let (a1, rx1) = self.ack_frame();
        match a1 {
            Ok(()) => {},
            Err(e) => {
                assert(self.faults() == old(self).faults() ==> self.received() == r0 + (crx@ + rx1@));
                assert(self.faults() == old(self).faults() ==> self.sent() == s0 + (
                spi_command_bytes(0x11) + address_bytes(address) + ack_frame_bytes()));
                return Err(e);
            },
        }
        assert(self.sent() == s0 + (spi_command_bytes(0x11) + address_bytes(address) + ack_frame_bytes()));
        assert((spi_command_bytes(0x11) + address_bytes(address) + ack_frame_bytes()).is_prefix_of(req));
        let sz = size_frame(size);
        match self.channel.send(sz.as_slice()) {
            Ok(()) => {},
            Err(e) => {
                return Err(e);
            },
        }
        assert(self.sent() == s0 + (spi_command_bytes(0x11) + address_bytes(address) + ack_frame_bytes() + size_bytes(size)));
        assert((spi_command_bytes(0x11) + address_bytes(address) + ack_frame_bytes() + size_bytes(size)).is_prefix_of(req));
        let (a2, rx2) = self.ack_frame();
        match a2 {
            Ok(()) => {},
            Err(e) => {
                assert(self.faults() == old(self).faults() ==> self.received() == r0 + (crx@ + rx1@ + rx2@));
                assert(self.faults() == old(self).faults() ==> self.sent() == s0 + (
                spi_command_bytes(0x11) + address_bytes(address) + ack_frame_bytes() + size_bytes(
                    size,
                ) + ack_frame_bytes()));
                return Err(e);
            },
        }
        assert(self.sent() == s0 + (spi_command_bytes(0x11) + address_bytes(address) + ack_frame_bytes() + size_bytes(size) + ack_frame_bytes()));
        assert((spi_command_bytes(0x11) + address_bytes(address) + ack_frame_bytes() + size_bytes(size) + ack_frame_bytes()).is_prefix_of(req));
        let ghost r3 = self.received();
        assert(self.sent() == s0 + (spi_command_bytes(0x11) + address_bytes(address)
            + ack_frame_bytes() + size_bytes(size) + ack_frame_bytes()));
        let v = match self.read_block(size as usize) {
            Ok(v) => v,
            Err(e) => {
                return Err(e);
            },
        };
        let ghost d = self.received()[r3.len() as int];
        let ghost dr = crx@ + rx1@ + rx2@ + seq![d] + v@;
        assert(self.received() == r0 + dr);
        assert(dr.subrange(13, dr.len() as int) == v@);
        Ok(v)
    }

    /// Write Memory: data of no byte or of more than 256 bytes is refused
    /// before any exchange; the block is padded to even length.
    fn write_memory(&mut self, address: u32, data: Vec<u8>) -> (r: Result<(), DfuLoaderError>)
        ensures
            final(self).pauses() == old(self).pauses(),
            final(self).extends(old(self)),
            !(1 <= data@.len() <= 256) <==> final(self).link_calls() == old(self).link_calls(),
            !(1 <= data@.len() <= 256) ==> (r matches Err(e) && e is ProtocolError) && final(
                self).sent() == old(self).sent() && final(self).received() == old(self).received(),
            1 <= data@.len() <= 256 && final(self).faults() == old(self).faults()
                ==> spi_write_memory_run(
                address,
                data@,
                gained(old(self).sent(), final(self).sent()),
                gained(old(self).received(), final(self).received()),
                r,
            ),
            final(self).faults() != old(self).faults() ==> final(self).failed_since(old(self), r)
                && gained(old(self).sent(), final(self).sent()).is_prefix_of(spi_command_bytes(0x31) + address_bytes(address) + ack_frame_bytes() + spi_data_bytes(
                data@,
            ) + ack_frame_bytes()),
    {
        let len = data.len();
        if len > 256 || len == 0 {
            return Err(DfuLoaderError::ProtocolError());
        }
        let ghost s0 = self.sent();
        let ghost r0 = self.received();
        let ghost req = spi_command_bytes(0x31) + address_bytes(address) + ack_frame_bytes() + spi_data_bytes(data@) + ack_frame_bytes();
        assert(self.sent() == s0 + Seq::<u8>::empty());
        assert(Seq::<u8>::empty().is_prefix_of(req));
        let (c, crx) = self.send_command(0x31);
        match c {
            Ok(()) => {},
            Err(e) => {
                return Err(e);
            },
        }
        assert(self.sent() == s0 + (spi_command_bytes(0x31)));
        assert((spi_command_bytes(0x31)).is_prefix_of(req));
        let addr = address_frame(address);
        match self.channel.send(addr.as_slice()) {
            Ok(()) => {},
            Err(e) => {
                return Err(e);
            },
        }
        assert(self.sent() == s0 + (spi_command_bytes(0x31) + address_bytes(address)));
        assert((spi_command_bytes(0x31) + address_bytes(address)).is_prefix_of(req));
        let (a1, rx1) = self.ack_frame();
        match a1 {
            Ok(()) => {},
            Err(e) => {
                assert(self.faults() == old(self).faults() ==> self.received() == r0 + (crx@ + rx1@));
                assert(self.faults() == old(self).faults() ==> self.sent() == s0 + (
                spi_command_bytes(0x31) + address_bytes(address) + ack_frame_bytes()));
                return Err(e);
            },
        }
        assert(self.sent() == s0 + (spi_command_bytes(0x31) + address_bytes(address) + ack_frame_bytes()));
        assert((spi_command_bytes(0x31) + address_bytes(address) + ack_frame_bytes()).is_prefix_of(req));
        let block = spi_data_block(data.as_slice());
        match self.channel.send(block.as_slice()) {
            Ok(()) => {},
            Err(e) => {
                return Err(e);
            },
        }
        assert(self.sent() == s0 + (spi_command_bytes(0x31) + address_bytes(address) + ack_frame_bytes() + spi_data_bytes(data@)));
        assert((spi_command_bytes(0x31) + address_bytes(address) + ack_frame_bytes() + spi_data_bytes(data@)).is_prefix_of(req));
        let (a2, rx2) = self.ack_frame();
        assert(self.faults() == old(self).faults() ==> self.received() == r0 + (crx@ + rx1@ + rx2@));
        assert(self.faults() == old(self).faults() ==> self.sent() == s0 + (spi_command_bytes(0x31)
            + address_bytes(address) + ack_frame_bytes() + spi_data_bytes(data@)
            + ack_frame_bytes()));
        a2
    }

    /// Extended Erase of the whole flash; the ack frame is polled through
    /// `BUSY` and `ALREADY_DONE` up to twenty times, and a timeout is
    /// reported when no ACK came.
    fn erase_all(&mut self) -> (r: Result<(), DfuLoaderError>)
        ensures
            final(self).extends(old(self)),
            final(self).faults() == old(self).faults() ==> spi_erase_run(
                gained(old(self).sent(), final(self).sent()),
                gained(old(self).received(), final(self).received()),
                gained(old(self).pauses(), final(self).pauses()),
                r,
            ),
            final(self).faults() != old(self).faults() ==> final(self).failed_since(old(self), r),
    {
        let ghost s0 = self.sent();
        let ghost r0 = self.received();
        let ghost p0 = self.pauses();
        let (c, crx) = self.send_command(0x44);
        match c {
            Ok(()) => {},
            Err(e) => {
                return Err(e);
            },
        }
        let payload: Vec<u8> = vec![0xFF, 0xFF, 0x00];
        assert(payload@ == mass_erase_bytes());
        match self.channel.send(payload.as_slice()) {
            Ok(()) => {},
            Err(e) => {
                return Err(e);
            },
        }
        let ghost s1 = self.sent();
        let ghost r1 = self.received();
        let r = self.poll_ack(0, ERASE_POLLS);
        proof {
            let head = spi_command_bytes(0x44) + mass_erase_bytes();
            let ds = gained(s1, self.sent());
            let dr = gained(r1, self.received());
            assert(self.sent() =~= s1 + ds);
            assert(self.received() =~= r1 + dr);
            assert(self.sent() == s0 + (head + ds));
            assert(self.received() == r0 + (crx@ + dr));
            assert((head + ds).subrange(9, 9 + ds.len() as int) == ds);
            assert((head + ds).subrange(0, 9) == head);
            assert((crx@ + dr).subrange(6, 6 + dr.len() as int) == dr);
        }
        r
    }

    /// Go: command, address, then the ack frame that confirms it.
    fn go(&mut self, address: u32) -> (r: Result<(), DfuLoaderError>)
        ensures
            final(self).pauses() == old(self).pauses(),
            final(self).extends(old(self)),
            final(self).faults() == old(self).faults() ==> spi_go_run(
                address,
                gained(old(self).sent(), final(self).sent()),
                gained(old(self).received(), final(self).received()),
                r,
            ),
            final(self).faults() != old(self).faults() ==> final(self).failed_since(old(self), r)
                && gained(old(self).sent(), final(self).sent()).is_prefix_of(spi_command_bytes(0x21) + address_bytes(address) + ack_frame_bytes()),
    {
        let ghost s0 = self.sent();
        let ghost r0 = self.received();
        let ghost req = spi_command_bytes(0x21) + address_bytes(address) + ack_frame_bytes();
        assert(self.sent() == s0 + Seq::<u8>::empty());
        assert(Seq::<u8>::empty().is_prefix_of(req));
        let (c, crx) = self.send_command(0x21);
        match c {
            Ok(()) => {},
            Err(e) => {
                return Err(e);
            },
        }
        assert(self.sent() == s0 + (spi_command_bytes(0x21)));
        assert((spi_command_bytes(0x21)).is_prefix_of(req));
        let addr = address_frame(address);
        match self.channel.send(addr.as_slice()) {
            Ok(()) => {},
            Err(e) => {
                return Err(e);
            },
        }
        assert(self.sent() == s0 + (spi_command_bytes(0x21) + address_bytes(address)));
        assert((spi_command_bytes(0x21) + address_bytes(address)).is_prefix_of(req));
        let (a, arx) = self.ack_frame();
        assert(self.faults() == old(self).faults() ==> self.received() == r0 + (crx@ + arx@));
        assert(self.faults() == old(self).faults() ==> self.sent() == s0 + (spi_command_bytes(0x21)
            + address_bytes(address) + ack_frame_bytes()));
        a
    }
}

} // verus!
