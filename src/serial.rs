//! The protocol engine for the UART transport: two-byte command frames,
//! XOR checksums and a single ACK byte after each step.

use vstd::prelude::*;
use crate::dfuloader::{
    BootLoaderInfo, BootloaderChipId, BootloaderOptions, DfuLoader, DfuLoaderError, Functions,
    function_of,
};
use crate::link::{Channel, Fault, Link, gained, reports_fault};
use crate::wire::{
    ACK, NAK, UART_SYNC, address_bytes, address_frame, command_bytes, command_frame, size_bytes,
    size_frame, uart_data_bytes, uart_data_frame,
};

verus! {

broadcast use {crate::link::lemma_gained_concat, crate::link::lemma_gained_self};

/// Attempts of the synchronisation handshake.
pub const SYNC_ATTEMPTS: u32 = 10;

/// Pause after an unanswered synchronisation byte, in milliseconds.
pub const SYNC_RETRY_MILLIS: u32 = 500;

/// Polls for the acknowledgement of a mass erase.
pub const ERASE_POLLS: u32 = 20;

/// Pause between two of those polls, in milliseconds.
pub const ERASE_POLL_MILLIS: u32 = 1000;

/// The payload of an extended erase that asks for a mass erase.
pub open spec fn mass_erase_bytes() -> Seq<u8> {
    seq![0xFFu8, 0xFFu8, 0x00u8]
}

/// `k` copies of byte `b`.
pub open spec fn repeated(b: u8, k: nat) -> Seq<u8> {
    Seq::new(k, |_i: int| b)
}

/// `k` pauses of `millis` milliseconds each.
pub open spec fn waits(millis: u32, k: nat) -> Seq<u32> {
    Seq::new(k, |_i: int| millis)
}

/// `r` reports that the device answered `b` where it owed an ACK.
pub open spec fn refused<T>(b: u8, r: Result<T, DfuLoaderError>) -> bool {
    b != ACK && match r {
        Err(DfuLoaderError::CommandFailed(x)) => x == b,
        _ => false,
    }
}

/// The result that status byte `b` leads to: Ok for an ACK, else
/// `CommandFailed(b)`.
pub open spec fn status_outcome(b: u8, r: Result<(), DfuLoaderError>) -> bool {
    if b == ACK {
        r is Ok
    } else {
        refused(b, r)
    }
}

/// Whether `b` answers the synchronisation byte: ACK or NAK.
pub open spec fn is_sync_answer(b: u8) -> bool {
    b == ACK || b == NAK
}

/// A run of the handshake with `t` read timeouts, in which `ds` went out,
/// `dr` came back and `dp` was paused: every attempt that got a byte other
/// than ACK or NAK, or timed out, is followed by a pause; the first ACK or
/// NAK succeeds; after ten attempts the handshake times out.
pub open spec fn sync_run(t: nat, ds: Seq<u8>, dr: Seq<u8>, dp: Seq<u32>, r: Result<(), DfuLoaderError>) -> bool {
    &&& t + dr.len() <= SYNC_ATTEMPTS
    &&& forall|i: int| 0 <= i < dr.len() - 1 ==> !is_sync_answer(#[trigger] dr[i])
    &&& if dr.len() >= 1 && is_sync_answer(dr.last()) {
        r is Ok && ds == repeated(UART_SYNC, t + dr.len()) && dp == waits(
            SYNC_RETRY_MILLIS,
            (t + dr.len() - 1) as nat,
        )
    } else {
        (r matches Err(e) && e is Timeout) && t + dr.len() == SYNC_ATTEMPTS && ds == repeated(
            UART_SYNC,
            SYNC_ATTEMPTS as nat,
        ) && dp == waits(SYNC_RETRY_MILLIS, SYNC_ATTEMPTS as nat)
    }
}

/// A run of Go to `address` without link faults, from what came back.
pub open spec fn go_run(address: u32, ds: Seq<u8>, dr: Seq<u8>, r: Result<(), DfuLoaderError>) -> bool {
    ||| dr.len() == 1 && refused(dr[0], r) && ds == command_bytes(0x21)
    ||| dr.len() == 2 && dr[0] == ACK && status_outcome(dr[1], r) && ds == command_bytes(0x21)
        + address_bytes(address)
}

/// A run of Read Memory without link faults, from what came back.
pub open spec fn read_memory_run(address: u32, size: u8, ds: Seq<u8>, dr: Seq<u8>, r: Result<Vec<u8>, DfuLoaderError>) -> bool {
    ||| dr.len() == 1 && refused(dr[0], r) && ds == command_bytes(0x11)
    ||| dr.len() == 2 && dr[0] == ACK && refused(dr[1], r) && ds == command_bytes(0x11)
        + address_bytes(address)
    ||| dr.len() == 3 && dr[0] == ACK && dr[1] == ACK && refused(dr[2], r) && ds == command_bytes(
        0x11,
    ) + address_bytes(address) + size_bytes(size)
    ||| dr.len() == 3 + size && dr[0] == ACK && dr[1] == ACK && dr[2] == ACK && (r matches Ok(v)
        && v@ == dr.subrange(3, dr.len() as int)) && ds == command_bytes(0x11) + address_bytes(
        address,
    ) + size_bytes(size)
}

/// A run of Write Memory without link faults, from what came back.
pub open spec fn write_memory_run(address: u32, data: Seq<u8>, ds: Seq<u8>, dr: Seq<u8>, r: Result<(), DfuLoaderError>) -> bool {
    ||| dr.len() == 1 && refused(dr[0], r) && ds == command_bytes(0x31)
    ||| dr.len() == 2 && dr[0] == ACK && refused(dr[1], r) && ds == command_bytes(0x31)
        + address_bytes(address)
    ||| dr.len() == 3 && dr[0] == ACK && dr[1] == ACK && status_outcome(dr[2], r) && ds
        == command_bytes(0x31) + address_bytes(address) + uart_data_bytes(data)
}

/// A run of Get Version without link faults, from what came back.
pub open spec fn get_version_run(ds: Seq<u8>, dr: Seq<u8>, r: Result<BootloaderOptions, DfuLoaderError>) -> bool {
    &&& ds == command_bytes(0x01)
    &&& {
        ||| dr.len() == 1 && refused(dr[0], r)
        ||| dr.len() == 5 && dr[0] == ACK && if dr[4] == ACK {
            r matches Ok(o) && o.version == dr[1] && o.options == dr[2] as int * 256 + dr[3]
        } else {
            r matches Err(e) && e is ProtocolError
        }
    }
}

/// A run of Get ID without link faults, from what came back: the length
/// byte must be 1 and the answer close with an ACK.
pub open spec fn get_id_run(ds: Seq<u8>, dr: Seq<u8>, r: Result<BootloaderChipId, DfuLoaderError>) -> bool {
    &&& ds == command_bytes(0x02)
    &&& {
        ||| dr.len() == 1 && refused(dr[0], r)
        ||| dr.len() >= 2 && dr[0] == ACK && dr.len() == dr[1] + 4 && if dr[1] == 1 && dr[4]
            == ACK {
            r matches Ok(id) && id.chipid == dr[2] as int * 256 + dr[3]
        } else {
            r matches Err(e) && e is ProtocolError
        }
    }
}

/// A run of Get without link faults, from what came back: the length byte
/// `L`, the version, `L` opcodes and a closing ACK.
pub open spec fn supported_functions_run(ds: Seq<u8>, dr: Seq<u8>, r: Result<BootLoaderInfo, DfuLoaderError>) -> bool {
    &&& ds == command_bytes(0x00)
    &&& {
        ||| dr.len() == 1 && refused(dr[0], r)
        ||| dr.len() >= 2 && dr[0] == ACK && dr.len() == dr[1] + 4 && if dr.last() == ACK {
            r matches Ok(info) && info.version == dr[2] && info.supported_functions@.len() == dr[1]
                && forall|i: int|
                0 <= i < dr[1] ==> #[trigger] info.supported_functions@[i] == function_of(
                    dr[i + 3],
                )
        } else {
            r matches Err(e) && e is ProtocolError
        }
    }
}

/// A run of a mass erase in which every link fault was a read timeout,
/// `t` of them: an unanswered command times out; else the ACK is polled
/// for through up to twenty timeouts, a second apart.
pub open spec fn erase_run(t: nat, ds: Seq<u8>, dr: Seq<u8>, dp: Seq<u32>, r: Result<(), DfuLoaderError>) -> bool {
    ||| t == 1 && dr.len() == 0 && ds == command_bytes(0x44) && dp.len() == 0 && (r matches Err(
        e,
    ) && e is Timeout)
    ||| t == 0 && dr.len() == 1 && refused(dr[0], r) && ds == command_bytes(0x44) && dp.len() == 0
    ||| dr.len() == 2 && dr[0] == ACK && t < ERASE_POLLS && status_outcome(dr[1], r) && ds
        == command_bytes(0x44) + mass_erase_bytes() && dp == waits(ERASE_POLL_MILLIS, t)
    ||| dr.len() == 1 && dr[0] == ACK && t == ERASE_POLLS && (r matches Err(e) && e is Timeout)
        && ds == command_bytes(0x44) + mass_erase_bytes() && dp == waits(
        ERASE_POLL_MILLIS,
        ERASE_POLLS as nat,
    )
}

/// A session with the bootloader over a UART link.
pub struct SerialConnection<L: Link> {
    channel: Channel<L>,
}

impl<L: Link> SerialConnection<L> {
    /// Every byte sent to the device so far.
    pub closed spec fn sent(&self) -> Seq<u8> {
        self.channel.sent()
    }

    /// Every byte received from the device so far.
    pub closed spec fn received(&self) -> Seq<u8> {
        self.channel.received()
    }

    /// Every pause taken so far, in milliseconds.
    pub closed spec fn pauses(&self) -> Seq<u32> {
        self.channel.pauses()
    }

    /// How many operations were asked of the link so far.
    pub closed spec fn link_calls(&self) -> nat {
        self.channel.link_calls()
    }

    /// How many link operations failed so far.
    pub closed spec fn faults(&self) -> nat {
        self.channel.faults()
    }

    /// How many reads timed out so far.
    pub closed spec fn read_timeouts(&self) -> nat {
        self.channel.read_timeouts()
    }

    /// The value of `link_calls` right after the last failed operation.
    pub closed spec fn fault_call(&self) -> nat {
        self.channel.fault_call()
    }

    /// How the last failed link operation failed.
    pub closed spec fn last_fault(&self) -> Fault {
        self.channel.last_fault()
    }

    /// Whether, since `before`, exactly one link operation failed, it was
    /// the last one asked of the link, and `r` reports it.
    pub open spec fn failed_since<T>(&self, before: &Self, r: Result<T, DfuLoaderError>) -> bool {
        &&& self.faults() == before.faults() + 1
        &&& self.fault_call() == self.link_calls()
        &&& match r {
            Err(e) => reports_fault(self.last_fault(), e),
            Ok(_) => false,
        }
    }

    /// Whether the read timeouts since `before` are all the faults since.
    pub open spec fn only_timeouts_since(&self, before: &Self) -> bool {
        self.faults() - before.faults() == self.read_timeouts() - before.read_timeouts()
    }

    /// A session over `link`, before the handshake.
    pub fn new(link: L) -> (r: Self)
        ensures
            r.sent() == Seq::<u8>::empty(),
            r.received() == Seq::<u8>::empty(),
            r.pauses() == Seq::<u32>::empty(),
            r.link_calls() == 0,
            r.faults() == 0,
            r.read_timeouts() == 0,
    {
        SerialConnection { channel: Channel::new(link) }
    }

    /// The link the session drives.
    pub fn link(&self) -> &L {
        self.channel.link()
    }

    /// Ends the session and gives the link back.
    pub fn into_link(self) -> L {
        self.channel.into_link()
    }

    /// Reads one status byte: Ok for an ACK, `CommandFailed` of any other.
    fn read_ack(&mut self) -> (r: Result<(), DfuLoaderError>)
        ensures
            final(self).sent() == old(self).sent(),
            final(self).pauses() == old(self).pauses(),
            final(self).link_calls() >= old(self).link_calls(),
            final(self).faults() == old(self).faults() ==> final(self).received().len() == old(
                self).received().len() + 1 && final(self).received().drop_last() == old(
                self).received() && status_outcome(final(self).received().last(), r) && final(
                self).read_timeouts() == old(self).read_timeouts(),
            final(self).faults() != old(self).faults() ==> final(self).failed_since(old(self), r)
                && final(self).received() == old(self).received() && final(self).read_timeouts()
                == old(self).read_timeouts() + if final(self).last_fault() == Fault::TimedOut {
                1int
            } else {
                0int
            },
    {
        let b = self.channel.read_byte()?;
        if b != ACK {
            return Err(DfuLoaderError::CommandFailed(b));
        }
        Ok(())
    }

    /// Sends `frame` and reads its status byte.
    fn send_acked(&mut self, frame: &[u8]) -> (r: Result<(), DfuLoaderError>)
        ensures
            final(self).pauses() == old(self).pauses(),
            final(self).link_calls() > old(self).link_calls(),
            final(self).faults() == old(self).faults() ==> final(self).sent() == old(self).sent()
                + frame@ && final(self).received().len() == old(self).received().len() + 1
                && final(self).received().drop_last() == old(self).received() && status_outcome(
                final(self).received().last(),
                r,
            ) && final(self).read_timeouts() == old(self).read_timeouts(),
            final(self).faults() != old(self).faults() ==> final(self).failed_since(old(self), r)
                && final(self).received() == old(self).received() && ((final(self).sent()
                == old(self).sent() && final(self).read_timeouts() == old(self).read_timeouts())
                || (final(self).sent() == old(self).sent() + frame@ && final(self).read_timeouts()
                == old(self).read_timeouts() + if final(self).last_fault() == Fault::TimedOut {
                1int
            } else {
                0int
            })),
    {
        self.channel.send(frame)?;
        self.read_ack()
    }

}

impl<L: Link> DfuLoader for SerialConnection<L> {
    /// Sends the synchronisation byte until the device answers with ACK or
    /// NAK, pausing after each attempt that it does not; gives up after
    /// ten attempts. A link failure other than a read timeout ends it at
    /// once.
    fn initialize(&mut self) -> (r: Result<(), DfuLoaderError>)
        ensures
            old(self).sent().is_prefix_of(final(self).sent()),
            old(self).received().is_prefix_of(final(self).received()),
            old(self).pauses().is_prefix_of(final(self).pauses()),
            final(self).only_timeouts_since(old(self)) ==> sync_run(
                (final(self).read_timeouts() - old(self).read_timeouts()) as nat,
                gained(old(self).sent(), final(self).sent()),
                gained(old(self).received(), final(self).received()),
                gained(old(self).pauses(), final(self).pauses()),
                r,
            ),
            !final(self).only_timeouts_since(old(self)) ==> final(self).fault_call() == final(
                self).link_calls() && (r matches Err(e) && reports_fault(final(self).last_fault(), e)),
    {
        let ghost s0 = self.sent();
        let ghost r0 = self.received();
        let ghost p0 = self.pauses();
        let frame: Vec<u8> = vec![UART_SYNC];
        let mut attempt: u32 = 0;
        assert(s0 + repeated(UART_SYNC, 0) == s0);
        assert(p0 + waits(SYNC_RETRY_MILLIS, 0) == p0);
        assert(r0 + Seq::<u8>::empty() == r0);
        while attempt < SYNC_ATTEMPTS
            invariant
                attempt <= SYNC_ATTEMPTS,
                frame@ == seq![UART_SYNC],
                self.only_timeouts_since(old(self)),
                self.faults() >= old(self).faults(),
                self.read_timeouts() >= old(self).read_timeouts(),
                self.sent() == s0 + repeated(UART_SYNC, attempt as nat),
                self.pauses() == p0 + waits(SYNC_RETRY_MILLIS, attempt as nat),
                self.received().len() >= r0.len(),
                self.received() == r0 + gained(r0, self.received()),
                (self.read_timeouts() - old(self).read_timeouts()) + gained(
                    r0,
                    self.received(),
                ).len() == attempt,
                forall|i: int|
                    0 <= i < gained(r0, self.received()).len() ==> !is_sync_answer(
                        #[trigger] gained(r0, self.received())[i],
                    ),
                s0 == old(self).sent(),
                r0 == old(self).received(),
                p0 == old(self).pauses(),
            decreases SYNC_ATTEMPTS - attempt,
        {
            let ghost dr = gained(r0, self.received());
            match self.channel.send(frame.as_slice()) {
                Ok(()) => {},
                Err(e) => {
                    return Err(e);
                },
            }
            assert(self.sent() == s0 + repeated(UART_SYNC, (attempt + 1) as nat));
            match self.channel.read_byte() {
                Ok(b) => {
                    assert(self.received() == r0 + dr.push(b));
                    if b == ACK || b == NAK {
                        assert(gained(r0, self.received()) == dr.push(b));
                        assert(self.pauses() == p0 + waits(SYNC_RETRY_MILLIS, attempt as nat));
                        return Ok(());
                    }
                },
                Err(DfuLoaderError::Timeout()) => {},
                Err(e) => {
                    return Err(e);
                },
            }
            self.channel.pause(SYNC_RETRY_MILLIS);
            attempt = attempt + 1;
            assert(self.pauses() == p0 + waits(SYNC_RETRY_MILLIS, attempt as nat));
        }
        Err(DfuLoaderError::Timeout())
    }

    /// Get Version: the protocol version and the two option bytes, high
    /// byte first, if the answer closes with an ACK.
    fn get_version(&mut self) -> (r: Result<BootloaderOptions, DfuLoaderError>)
        ensures
            final(self).pauses() == old(self).pauses(),
            old(self).sent().is_prefix_of(final(self).sent()),
            old(self).received().is_prefix_of(final(self).received()),
            final(self).faults() == old(self).faults() ==> get_version_run(
                gained(old(self).sent(), final(self).sent()),
                gained(old(self).received(), final(self).received()),
                r,
            ),
            final(self).faults() != old(self).faults() ==> final(self).failed_since(old(self), r),
    {
        let ghost s0 = self.sent();
        let ghost r0 = self.received();
        let cmd = command_frame(0x01);
        match self.send_acked(cmd.as_slice()) {
            Ok(()) => {},
            Err(e) => {
                assert(self.received() == r0 || self.received() == r0 + seq![self.received().last()]);
                assert(self.sent() == s0 || self.sent() == s0 + cmd@);
                return Err(e);
            },
        }
        assert(self.received() == r0 + seq![ACK]);
        let ghost r1 = self.received();
        let v = match self.channel.read_exact(4) {
            Ok(v) => v,
            Err(e) => {
                return Err(e);
            },
        };
        assert(self.received() == r0 + (seq![ACK] + v@));
        if v[3] != ACK {
            return Err(DfuLoaderError::ProtocolError());
        }
        let hi = v[1];
        let lo = v[2];
        let options: u16 = (hi as u16) << 8u16 | lo as u16;
        assert(options == hi as int * 256 + lo) by (bit_vector)
            requires
                options == (hi as u16) << 8u16 | lo as u16,
        ;
        Ok(BootloaderOptions { version: v[0], options })
    }

    /// Get: the protocol version and every command the device lists, if
    /// the answer closes with an ACK.
    fn supported_functions(&mut self) -> (r: Result<BootLoaderInfo, DfuLoaderError>)
        ensures
            final(self).pauses() == old(self).pauses(),
            old(self).sent().is_prefix_of(final(self).sent()),
            old(self).received().is_prefix_of(final(self).received()),
            final(self).faults() == old(self).faults() ==> supported_functions_run(
                gained(old(self).sent(), final(self).sent()),
                gained(old(self).received(), final(self).received()),
                r,
            ),
            final(self).faults() != old(self).faults() ==> final(self).failed_since(old(self), r),
    {
        let ghost s0 = self.sent();
        let ghost r0 = self.received();
        let cmd = command_frame(0x00);
        match self.send_acked(cmd.as_slice()) {
            Ok(()) => {},
            Err(e) => {
                assert(self.received() == r0 || self.received() == r0 + seq![self.received().last()]);
                assert(self.sent() == s0 || self.sent() == s0 + cmd@);
                return Err(e);
            },
        }
        let n = match self.channel.read_byte() {
            Ok(n) => n,
            Err(e) => {
                assert(self.received() == r0 + seq![ACK]);
                return Err(e);
            },
        };
        let count: usize = n as usize;
        let resp = match self.channel.read_exact(count + 2) {
            Ok(v) => v,
            Err(e) => {
                assert(self.received() == r0 + seq![ACK, n]);
                return Err(e);
            },
        };
        let ghost dr = seq![ACK, n] + resp@;
        assert(self.received() == r0 + dr);
        if resp[count + 1] != ACK {
            return Err(DfuLoaderError::ProtocolError());
        }
        let mut functions: Vec<Functions> = Vec::new();
        let mut i: usize = 0;
        while i < count
            invariant
                count + 2 == resp@.len(),
                i <= count,
                functions@.len() == i,
                forall|j: int| 0 <= j < i ==> #[trigger] functions@[j] == function_of(resp@[j + 1]),
            decreases count - i,
        {
            functions.push(Functions::from_opcode(resp[i + 1]));
            i = i + 1;
        }
        assert forall|j: int| 0 <= j < count implies #[trigger] functions@[j] == function_of(
            dr[j + 3],
        ) by {
            assert(dr[j + 3] == resp@[j + 1]);
        }
        Ok(BootLoaderInfo { version: resp[0], supported_functions: functions })
    }

    /// Get ID: the answer must hold exactly two identifier bytes, high byte
    /// first, and a closing ACK.
    fn get_id(&mut self) -> (r: Result<BootloaderChipId, DfuLoaderError>)
        ensures
            final(self).pauses() == old(self).pauses(),
            old(self).sent().is_prefix_of(final(self).sent()),
            old(self).received().is_prefix_of(final(self).received()),
            final(self).faults() == old(self).faults() ==> get_id_run(
                gained(old(self).sent(), final(self).sent()),
                gained(old(self).received(), final(self).received()),
                r,
            ),
            final(self).faults() != old(self).faults() ==> final(self).failed_since(old(self), r),
    {
        let ghost s0 = self.sent();
        let ghost r0 = self.received();
        let cmd = command_frame(0x02);
        match self.send_acked(cmd.as_slice()) {
            Ok(()) => {},
            Err(e) => {
                assert(self.received() == r0 || self.received() == r0 + seq![self.received().last()]);
                assert(self.sent() == s0 || self.sent() == s0 + cmd@);
                return Err(e);
            },
        }
        let n = match self.channel.read_byte() {
            Ok(n) => n,
            Err(e) => {
                assert(self.received() == r0 + seq![ACK]);
                return Err(e);
            },
        };
        let resp = match self.channel.read_exact(n as usize + 2) {
            Ok(v) => v,
            Err(e) => {
                assert(self.received() == r0 + seq![ACK, n]);
                return Err(e);
            },
        };
        let ghost dr = seq![ACK, n] + resp@;
        assert(self.received() == r0 + dr);
        if resp.len() != 3 {
            return Err(DfuLoaderError::ProtocolError());
        }
        if resp[2] != ACK {
            return Err(DfuLoaderError::ProtocolError());
        }
        let hi = resp[0];
        let lo = resp[1];
        let chipid: u16 = (hi as u16) << 8u16 | lo as u16;
        assert(chipid == hi as int * 256 + lo) by (bit_vector)
            requires
                chipid == (hi as u16) << 8u16 | lo as u16,
        ;
        Ok(BootloaderChipId { chipid })
    }

    /// Not available over UART.
    fn write_unprotect(&mut self) -> (r: Result<(), DfuLoaderError>)
        ensures
            r matches Err(e) && e is NotImplemented,
            final(self).link_calls() == old(self).link_calls(),
            final(self).sent() == old(self).sent(),
            final(self).received() == old(self).received(),
            final(self).pauses() == old(self).pauses(),
    {
        Err(DfuLoaderError::NotImplemented())
    }

    /// Read Memory: a size of zero is refused before any exchange; else
    /// command, address and size are each acknowledged, then the data read.
    fn read_memory(&mut self, address: u32, size: u8) -> (r: Result<Vec<u8>, DfuLoaderError>)
        ensures
            final(self).pauses() == old(self).pauses(),
            size == 0 <==> final(self).link_calls() == old(self).link_calls(),
            size == 0 ==> (r matches Err(e) && e is ProtocolError) && final(self).sent() == old(
                self).sent() && final(self).received() == old(self).received(),
            old(self).sent().is_prefix_of(final(self).sent()),
            old(self).received().is_prefix_of(final(self).received()),
            size >= 1 && final(self).faults() == old(self).faults() ==> read_memory_run(
                address,
                size,
                gained(old(self).sent(), final(self).sent()),
                gained(old(self).received(), final(self).received()),
                r,
            ),
            final(self).faults() != old(self).faults() ==> final(self).failed_since(old(self), r)
                && gained(old(self).sent(), final(self).sent()).is_prefix_of(
                command_bytes(0x11) + address_bytes(address) + size_bytes(size),
            ),
    {
        if size == 0 {
            return Err(DfuLoaderError::ProtocolError());
        }
        let ghost s0 = self.sent();
        let ghost r0 = self.received();
        let ghost req = command_bytes(0x11) + address_bytes(address) + size_bytes(size);
        let cmd = command_frame(0x11);
        match self.send_acked(cmd.as_slice()) {
            Ok(()) => {},
            Err(e) => {
                assert(self.received() == r0 || self.received() == r0 + seq![self.received().last()]);
                assert(self.sent() == s0 || self.sent() == s0 + cmd@);
                assert(cmd@.is_prefix_of(req));
                assert(Seq::<u8>::empty().is_prefix_of(req));
                return Err(e);
            },
        }
        let ghost s1 = self.sent();
        let addr = address_frame(address);
        match self.send_acked(addr.as_slice()) {
            Ok(()) => {},
            Err(e) => {
                assert(self.received() == r0 + seq![ACK] || self.received() == r0 + seq![ACK, self.received().last()]);
                assert(self.sent() == s0 + cmd@ || self.sent() == s0 + (cmd@ + addr@));
                assert(cmd@.is_prefix_of(req));
                assert((cmd@ + addr@).is_prefix_of(req));
                return Err(e);
            },
        }
        let sz = size_frame(size);
        match self.send_acked(sz.as_slice()) {
            Ok(()) => {},
            Err(e) => {
                assert(self.received() == r0 + seq![ACK, ACK] || self.received() == r0 + seq![ACK, ACK, self.received().last()]);
                assert(self.sent() == s0 + (cmd@ + addr@) || self.sent() == s0 + req);
                assert((cmd@ + addr@).is_prefix_of(req));
                assert(req.is_prefix_of(req));
                return Err(e);
            },
        }
        assert(self.sent() == s0 + req);
        assert(req.is_prefix_of(req));
        let ghost r3 = self.received();
        assert(r3 == r0 + seq![ACK, ACK, ACK]);
        let v = match self.channel.read_exact(size as usize) {
            Ok(v) => v,
            Err(e) => {
                return Err(e);
            },
        };
        assert(self.received() == r0 + (seq![ACK, ACK, ACK] + v@));
        assert((seq![ACK, ACK, ACK] + v@).subrange(3, 3 + size) == v@);
        Ok(v)
    }

    /// Write Memory: data of no byte or of more than 256 bytes is refused
    /// before any exchange; else command, address and data frame are each
    /// acknowledged.
    fn write_memory(&mut self, address: u32, data: Vec<u8>) -> (r: Result<(), DfuLoaderError>)
        ensures
            final(self).pauses() == old(self).pauses(),
            !(1 <= data@.len() <= 256) <==> final(self).link_calls() == old(self).link_calls(),
            !(1 <= data@.len() <= 256) ==> (r matches Err(e) && e is ProtocolError) && final(
                self).sent() == old(self).sent() && final(self).received() == old(self).received(),
            old(self).sent().is_prefix_of(final(self).sent()),
            old(self).received().is_prefix_of(final(self).received()),
            1 <= data@.len() <= 256 && final(self).faults() == old(self).faults()
                ==> write_memory_run(
                address,
                data@,
                gained(old(self).sent(), final(self).sent()),
                gained(old(self).received(), final(self).received()),
                r,
            ),
            final(self).faults() != old(self).faults() ==> final(self).failed_since(old(self), r)
                && gained(old(self).sent(), final(self).sent()).is_prefix_of(
                command_bytes(0x31) + address_bytes(address) + uart_data_bytes(data@),
            ),
    {
        if data.len() > 256 || data.len() == 0 {
            return Err(DfuLoaderError::ProtocolError());
        }
        let ghost s0 = self.sent();
        let ghost r0 = self.received();
        let ghost req = command_bytes(0x31) + address_bytes(address) + uart_data_bytes(data@);
        let cmd = command_frame(0x31);
        match self.send_acked(cmd.as_slice()) {
            Ok(()) => {},
            Err(e) => {
                assert(self.received() == r0 || self.received() == r0 + seq![self.received().last()]);
                assert(self.sent() == s0 || self.sent() == s0 + cmd@);
                assert(cmd@.is_prefix_of(req));
                assert(Seq::<u8>::empty().is_prefix_of(req));
                return Err(e);
            },
        }
        let addr = address_frame(address);
        match self.send_acked(addr.as_slice()) {
            Ok(()) => {},
            Err(e) => {
                assert(self.received() == r0 + seq![ACK] || self.received() == r0 + seq![ACK, self.received().last()]);
                assert(self.sent() == s0 + cmd@ || self.sent() == s0 + (cmd@ + addr@));
                assert(cmd@.is_prefix_of(req));
                assert((cmd@ + addr@).is_prefix_of(req));
                return Err(e);
            },
        }
        let frame = uart_data_frame(data.as_slice());
        let r = self.send_acked(frame.as_slice());
        assert(self.received() == r0 + seq![ACK, ACK] || self.received() == r0 + seq![ACK, ACK, self.received().last()]);
        assert(self.sent() == s0 + (cmd@ + addr@) || self.sent() == s0 + req);
        assert((cmd@ + addr@).is_prefix_of(req));
        assert(req.is_prefix_of(req));
        r
    }

    /// Extended Erase of the whole flash; the acknowledgement may take
    /// seconds, so timeouts are polled through up to twenty times, a
    /// second apart.
    fn erase_all(&mut self) -> (r: Result<(), DfuLoaderError>)
        ensures
            old(self).sent().is_prefix_of(final(self).sent()),
            old(self).received().is_prefix_of(final(self).received()),
            old(self).pauses().is_prefix_of(final(self).pauses()),
            final(self).only_timeouts_since(old(self)) ==> erase_run(
                (final(self).read_timeouts() - old(self).read_timeouts()) as nat,
                gained(old(self).sent(), final(self).sent()),
                gained(old(self).received(), final(self).received()),
                gained(old(self).pauses(), final(self).pauses()),
                r,
            ),
            !final(self).only_timeouts_since(old(self)) ==> final(self).fault_call() == final(
                self).link_calls() && (r matches Err(e) && reports_fault(final(self).last_fault(), e)),
    {
        let ghost s0 = self.sent();
        let ghost r0 = self.received();
        let ghost p0 = self.pauses();
        assert(p0 + waits(ERASE_POLL_MILLIS, 0) == p0);
        let cmd = command_frame(0x44);
        match self.send_acked(cmd.as_slice()) {
            Ok(()) => {},
            Err(e) => {
                assert(self.received() == r0 || self.received() == r0 + seq![self.received().last()]);
                assert(self.sent() == s0 || self.sent() == s0 + cmd@);
                return Err(e);
            },
        }
        let payload: Vec<u8> = vec![0xFF, 0xFF, 0x00];
        assert(payload@ == mass_erase_bytes());
        match self.channel.send(payload.as_slice()) {
            Ok(()) => {},
            Err(e) => {
                return Err(e);
            },
        }
        let ghost t0 = self.read_timeouts();
        assert(self.sent() == s0 + (command_bytes(0x44) + mass_erase_bytes()));
        assert(self.received() == r0 + seq![ACK]);
        let mut poll: u32 = 0;
        while poll < ERASE_POLLS
            invariant
                poll <= ERASE_POLLS,
                self.only_timeouts_since(old(self)),
                self.read_timeouts() == old(self).read_timeouts() + poll,
                self.sent() == s0 + (command_bytes(0x44) + mass_erase_bytes()),
                self.received() == r0 + seq![ACK],
                self.pauses() == p0 + waits(ERASE_POLL_MILLIS, poll as nat),
                s0 == old(self).sent(),
                r0 == old(self).received(),
                p0 == old(self).pauses(),
            decreases ERASE_POLLS - poll,
        {
            let ghost rp = self.received();
            let ghost f1 = self.faults();
            let res = self.read_ack();
            proof {
                if self.faults() == f1 {
                    assert(self.received() =~= rp.push(self.received().last()));
                    assert(rp.push(self.received().last()) =~= r0 + seq![ACK, self.received().last()]);
                }
            }
            match res {
                Ok(()) => {
                    assert(self.received() == r0 + seq![ACK, ACK]);
                    return Ok(());
                },
                Err(DfuLoaderError::Timeout()) => {},
                Err(e) => {
                    return Err(e);
                },
            }
            self.channel.pause(ERASE_POLL_MILLIS);
            poll = poll + 1;
            assert(self.pauses() == p0 + waits(ERASE_POLL_MILLIS, poll as nat));
        }
        Err(DfuLoaderError::Timeout())
    }

    /// Go: command and address are each acknowledged.
    fn go(&mut self, address: u32) -> (r: Result<(), DfuLoaderError>)
        ensures
            final(self).pauses() == old(self).pauses(),
            old(self).sent().is_prefix_of(final(self).sent()),
            old(self).received().is_prefix_of(final(self).received()),
            final(self).faults() == old(self).faults() ==> go_run(
                address,
                gained(old(self).sent(), final(self).sent()),
                gained(old(self).received(), final(self).received()),
                r,
            ),
            final(self).faults() != old(self).faults() ==> final(self).failed_since(old(self), r)
                && gained(old(self).sent(), final(self).sent()).is_prefix_of(
                command_bytes(0x21) + address_bytes(address),
            ),
    {
        let ghost s0 = self.sent();
        let ghost r0 = self.received();
        let ghost req = command_bytes(0x21) + address_bytes(address);
        let cmd = command_frame(0x21);
        match self.send_acked(cmd.as_slice()) {
            Ok(()) => {},
            Err(e) => {
                assert(self.received() == r0 || self.received() == r0 + seq![self.received().last()]);
                assert(self.sent() == s0 || self.sent() == s0 + cmd@);
                assert(cmd@.is_prefix_of(req));
                assert(Seq::<u8>::empty().is_prefix_of(req));
                return Err(e);
            },
        }
        let addr = address_frame(address);
        let r = self.send_acked(addr.as_slice());
        assert(self.received() == r0 + seq![ACK] || self.received() == r0 + seq![ACK, self.received().last()]);
        assert(self.sent() == s0 + cmd@ || self.sent() == s0 + req);
        assert(cmd@.is_prefix_of(req));
        assert(req.is_prefix_of(req));
        r
    }
}

} // verus!
