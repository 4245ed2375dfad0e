//! The byte channel that a protocol engine drives, and the bookkeeping that
//! records every exchange on it, successful or not.

use vstd::prelude::*;
use crate::dfuloader::DfuLoaderError;

verus! {

/// Why a link operation did not complete.
#[derive(Debug)]
pub enum LinkError {
    /// The per-read deadline elapsed.
    Timeout,
    /// Any other failure of the underlying device.
    Io(std::io::Error),
}

/// A duplex byte channel to the device, owned by one session.
///
/// The link does not interpret bytes; all protocol meaning lives in the
/// engines that drive it.
pub trait Link {
    /// Transmits every byte of `bytes`.
    fn send(&mut self, bytes: &[u8]) -> Result<(), LinkError>;

    /// Waits for input and hands back between one and `max` bytes.
    fn receive(&mut self, max: usize) -> Result<Vec<u8>, LinkError>;

    /// A full-duplex exchange: clocks out `tx` and hands back the bytes that
    /// came in meanwhile, as many as went out.
    fn transfer(&mut self, tx: &[u8]) -> Result<Vec<u8>, LinkError>;

    /// Waits for `millis` milliseconds.
    fn pause(&mut self, millis: u32);
}

/// How a link operation failed.
#[derive(Debug, Clone, Copy, PartialEq, Eq, Structural)]
pub enum Fault {
    /// The link reported a timeout.
    TimedOut,
    /// The link reported another failure.
    Failed,
    /// The link handed back a number of bytes it may not.
    Malformed,
}

/// The fault that a link error stands for.
pub open spec fn fault_of(e: LinkError) -> Fault {
    match e {
        LinkError::Timeout => Fault::TimedOut,
        LinkError::Io(_) => Fault::Failed,
    }
}

/// Whether `e` is the session error that reports fault `f`.
pub open spec fn reports_fault(f: Fault, e: DfuLoaderError) -> bool {
    match f {
        Fault::TimedOut => e is Timeout,
        Fault::Failed => e is IOError,
        Fault::Malformed => e is ProtocolError,
    }
}

/// What `after` holds beyond `before`.
pub open spec fn gained<T>(before: Seq<T>, after: Seq<T>) -> Seq<T> {
    after.subrange(before.len() as int, after.len() as int)
}

/// What follows `a` in `a + b` is `b`, and `a` is a prefix of `a + b`.
pub broadcast proof fn lemma_gained_concat<T>(a: Seq<T>, b: Seq<T>)
    ensures
        #[trigger] gained(a, a + b) == b,
        a.is_prefix_of(a + b),
{
    assert(gained(a, a + b) =~= b);
    assert((a + b).subrange(0, a.len() as int) =~= a);
}

/// Nothing follows `a` in `a` itself.
pub broadcast proof fn lemma_gained_self<T>(a: Seq<T>)
    ensures
        #[trigger] gained(a, a) == Seq::<T>::empty(),
        a.is_prefix_of(a),
{
    assert(gained(a, a) =~= Seq::<T>::empty());
    assert(a.subrange(0, a.len() as int) =~= a);
}

/// Errors that report a failing link rather than an answer of the device.
pub open spec fn is_link_fault(e: DfuLoaderError) -> bool {
    e is Timeout || e is IOError
}

/// Errors that a channel operation can end with.
pub open spec fn is_channel_error(e: DfuLoaderError) -> bool {
    is_link_fault(e) || e is ProtocolError
}

/// Maps a failure of the link to the session's error.
pub fn link_fault(e: LinkError) -> (r: DfuLoaderError)
    ensures
        is_link_fault(r),
        reports_fault(fault_of(e), r),
{
    match e {
        LinkError::Timeout => DfuLoaderError::Timeout(),
        LinkError::Io(io) => DfuLoaderError::IOError(io),
    }
}

/// A link together with the transcript of what was exchanged over it: the
/// bytes that went out, the bytes that came back and the pauses taken, each
/// in order, for the operations that completed; and, for those that
/// failed, how many there were, how the last one failed and when.
pub struct Channel<L: Link> {
    link: L,
    sent: Ghost<Seq<u8>>,
    received: Ghost<Seq<u8>>,
    pauses: Ghost<Seq<u32>>,
    calls: Ghost<nat>,
    faults: Ghost<nat>,
    read_timeouts: Ghost<nat>,
    fault_call: Ghost<nat>,
    last_fault: Ghost<Fault>,
}

impl<L: Link> Channel<L> {
    /// Every byte sent so far.
    pub closed spec fn sent(&self) -> Seq<u8> {
        self.sent@
    }

    /// Every byte received so far.
    pub closed spec fn received(&self) -> Seq<u8> {
        self.received@
    }

    /// Every pause taken so far, in milliseconds.
    pub closed spec fn pauses(&self) -> Seq<u32> {
        self.pauses@
    }

    /// How many operations were asked of the link so far, whatever their
    /// outcome.
    pub closed spec fn link_calls(&self) -> nat {
        self.calls@
    }

    /// How many channel operations failed so far.
    pub closed spec fn faults(&self) -> nat {
        self.faults@
    }

    /// How many reads failed with a timeout so far.
    pub closed spec fn read_timeouts(&self) -> nat {
        self.read_timeouts@
    }

    /// The value of `link_calls` right after the last failed operation.
    pub closed spec fn fault_call(&self) -> nat {
        self.fault_call@
    }

    /// How the last failed operation failed.
    pub closed spec fn last_fault(&self) -> Fault {
        self.last_fault@
    }

    /// A channel over `link` with an empty transcript.
    pub fn new(link: L) -> (r: Self)
        ensures
            r.sent() == Seq::<u8>::empty(),
            r.received() == Seq::<u8>::empty(),
            r.pauses() == Seq::<u32>::empty(),
            r.link_calls() == 0,
            r.faults() == 0,
            r.read_timeouts() == 0,
    {
        Channel {
            link,
            sent: Ghost(Seq::empty()),
            received: Ghost(Seq::empty()),
            pauses: Ghost(Seq::empty()),
            calls: Ghost(0),
            faults: Ghost(0),
            read_timeouts: Ghost(0),
            fault_call: Ghost(0),
            last_fault: Ghost(Fault::Failed),
        }
    }

    /// The link itself.
    pub fn link(&self) -> &L {
        &self.link
    }

    /// Gives the link back, ending the session.
    pub fn into_link(self) -> L {
        self.link
    }

    /// Whether `self` failed exactly once since `before`, in its last link
    /// call, and `e` reports that failure.
    pub open spec fn failed_since(&self, before: &Self, e: DfuLoaderError) -> bool {
        self.faults() == before.faults() + 1 && self.fault_call() == self.link_calls()
            && reports_fault(self.last_fault(), e)
    }

    /// Sends `bytes`: succeeds unless the link fails.
    pub fn send(&mut self, bytes: &[u8]) -> (r: Result<(), DfuLoaderError>)
        ensures
            final(self).link_calls() == old(self).link_calls() + 1,
            final(self).received() == old(self).received(),
            final(self).pauses() == old(self).pauses(),
            final(self).read_timeouts() == old(self).read_timeouts(),
            r is Ok <==> final(self).faults() == old(self).faults(),
            r is Ok ==> final(self).sent() == old(self).sent() + bytes@,
            r matches Err(e) ==> is_link_fault(e) && final(self).sent() == old(self).sent()
                && final(self).failed_since(old(self), e) && final(self).last_fault()
                != Fault::Malformed,
    {
        self.calls = Ghost(self.calls@ + 1);
        match self.link.send(bytes) {
            Ok(()) => {
                self.sent = Ghost(self.sent@ + bytes@);
                Ok(())
            },
            Err(e) => {
                self.faults = Ghost(self.faults@ + 1);
                self.fault_call = Ghost(self.calls@);
                self.last_fault = Ghost(fault_of(e));
                Err(link_fault(e))
            },
        }
    }

    /// Receives exactly `n` bytes, gathering them from as many reads as
    /// the link needs; succeeds unless a read fails, and stops at the
    /// first that does.
    pub fn read_exact(&mut self, n: usize) -> (r: Result<Vec<u8>, DfuLoaderError>)
        ensures
            final(self).link_calls() >= old(self).link_calls(),
            final(self).sent() == old(self).sent(),
            final(self).pauses() == old(self).pauses(),
            n == 0 ==> r is Ok && final(self).link_calls() == old(self).link_calls(),
            r is Ok <==> final(self).faults() == old(self).faults(),
            r matches Ok(v) ==> v@.len() == n && final(self).received() == old(self).received()
                + v@ && final(self).read_timeouts() == old(self).read_timeouts(),
            r matches Err(e) ==> is_channel_error(e) && final(self).received() == old(
                self).received() && final(self).failed_since(old(self), e) && final(
                self).read_timeouts() == old(self).read_timeouts() + if final(self).last_fault()
                == Fault::TimedOut {
                1int
            } else {
                0int
            },
    {
        let mut buf: Vec<u8> = Vec::new();
        while buf.len() < n
            invariant
                buf@.len() <= n,
                self.sent() == old(self).sent(),
                self.pauses() == old(self).pauses(),
                self.received() == old(self).received(),
                self.link_calls() >= old(self).link_calls(),
                self.faults() == old(self).faults(),
                self.read_timeouts() == old(self).read_timeouts(),
                n == 0 ==> self.link_calls() == old(self).link_calls(),
            decreases n - buf@.len(),
        {
            let want: usize = n - buf.len();
            self.calls = Ghost(self.calls@ + 1);
            let mut chunk = match self.link.receive(want) {
                Ok(c) => c,
                Err(e) => {
                    self.faults = Ghost(self.faults@ + 1);
                    self.fault_call = Ghost(self.calls@);
                    self.last_fault = Ghost(fault_of(e));
                    self.read_timeouts = Ghost(
                        if e is Timeout {
                            self.read_timeouts@ + 1
                        } else {
                            self.read_timeouts@
                        },
                    );
                    return Err(link_fault(e));
                },
            };
            if chunk.len() == 0 || chunk.len() > want {
                self.faults = Ghost(self.faults@ + 1);
                self.fault_call = Ghost(self.calls@);
                self.last_fault = Ghost(Fault::Malformed);
                return Err(DfuLoaderError::ProtocolError());
            }
            buf.append(&mut chunk);
        }
        self.received = Ghost(self.received@ + buf@);
        Ok(buf)
    }

    /// Receives one byte.
    pub fn read_byte(&mut self) -> (r: Result<u8, DfuLoaderError>)
        ensures
            final(self).link_calls() >= old(self).link_calls(),
            final(self).sent() == old(self).sent(),
            final(self).pauses() == old(self).pauses(),
            r is Ok <==> final(self).faults() == old(self).faults(),
            r matches Ok(b) ==> final(self).received() == old(self).received().push(b)
                && final(self).read_timeouts() == old(self).read_timeouts(),
            r matches Err(e) ==> is_channel_error(e) && final(self).received() == old(
                self).received() && final(self).failed_since(old(self), e) && final(
                self).read_timeouts() == old(self).read_timeouts() + if final(self).last_fault()
                == Fault::TimedOut {
                1int
            } else {
                0int
            },
    {
        let v = self.read_exact(1)?;
        assert(v@ == seq![v@[0]]);
        Ok(v[0])
    }

    /// Clocks out `tx` and returns what came in meanwhile; succeeds unless
    /// the link fails.
    pub fn transfer(&mut self, tx: &[u8]) -> (r: Result<Vec<u8>, DfuLoaderError>)
        ensures
            final(self).link_calls() == old(self).link_calls() + 1,
            final(self).pauses() == old(self).pauses(),
            final(self).read_timeouts() == old(self).read_timeouts(),
            r is Ok <==> final(self).faults() == old(self).faults(),
            r matches Ok(rx) ==> rx@.len() == tx@.len() && final(self).sent() == old(self).sent()
                + tx@ && final(self).received() == old(self).received() + rx@,
            r matches Err(e) ==> is_channel_error(e) && final(self).sent() == old(self).sent()
                && final(self).received() == old(self).received() && final(self).failed_since(
                old(self),
                e,
            ),
    {
        self.calls = Ghost(self.calls@ + 1);
        let rx = match self.link.transfer(tx) {
            Ok(rx) => rx,
            Err(e) => {
                self.faults = Ghost(self.faults@ + 1);
                self.fault_call = Ghost(self.calls@);
                self.last_fault = Ghost(fault_of(e));
                return Err(link_fault(e));
            },
        };
        if rx.len() != tx.len() {
            self.faults = Ghost(self.faults@ + 1);
            self.fault_call = Ghost(self.calls@);
            self.last_fault = Ghost(Fault::Malformed);
            return Err(DfuLoaderError::ProtocolError());
        }
        self.sent = Ghost(self.sent@ + tx@);
        self.received = Ghost(self.received@ + rx@);
        Ok(rx)
    }

    /// Waits `millis` milliseconds.
    pub fn pause(&mut self, millis: u32)
        ensures
            final(self).link_calls() == old(self).link_calls() + 1,
            final(self).sent() == old(self).sent(),
            final(self).received() == old(self).received(),
            final(self).pauses() == old(self).pauses().push(millis),
            final(self).faults() == old(self).faults(),
            final(self).read_timeouts() == old(self).read_timeouts(),
    {
        self.calls = Ghost(self.calls@ + 1);
        self.link.pause(millis);
        self.pauses = Ghost(self.pauses@.push(millis));
    }
}

} // verus!
