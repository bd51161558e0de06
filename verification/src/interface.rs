//! The collaborator capabilities the driver is generic over: a write-only
//! command/data channel, a digital output pin, and a blocking delay
//! provider. Each capability carries a ghost history of the actions it has
//! accepted, and every contract of the driver is stated over those
//! histories, so that the exact byte traffic of an operation is pinned down.

use vstd::prelude::*;

verus! {

/// One transfer accepted by the command/data channel: either a single
/// opcode byte framed as a command transfer, or a run of payload bytes
/// framed as a data transfer.
#[verifier::ext_equal]
pub enum BusWrite {
    Command(u8),
    Data(Seq<u8>),
}

/// A transfer rejected by the transport. The driver surfaces it as
/// `Error::DisplayError`.
#[derive(Clone, Copy, Debug)]
pub struct BusFault;

/// The level an output pin was driven to.
#[derive(Clone, Copy, Debug, PartialEq, Eq, Structural)]
pub enum Level {
    Low,
    High,
}

/// A pin drive rejected; the recording pin never rejects one.
#[derive(Clone, Copy, Debug)]
pub struct PinFault;

/// The high byte of a 16-bit word.
pub open spec fn hi8(w: u16) -> u8 {
    (w / 256) as u8
}

/// The low byte of a 16-bit word.
pub open spec fn lo8(w: u16) -> u8 {
    (w % 256) as u8
}

/// A 16-bit word as two bytes, most-significant byte first.
pub open spec fn be16(w: u16) -> Seq<u8> {
    seq![hi8(w), lo8(w)]
}

/// A sequence of 16-bit words flattened to bytes, each word
/// most-significant byte first, in word order.
pub open spec fn words_be(s: Seq<u16>) -> Seq<u8>
    decreases s.len(),
{
    if s.len() == 0 {
        Seq::empty()
    } else {
        words_be(s.drop_last()) + be16(s.last())
    }
}

/// The failure shape of every compound operation: the new history is the
/// old one extended by some prefix of the operation's intended entries.
/// The first rejected step stops the operation — nothing stray is ever
/// recorded, and nothing follows the failing step.
pub open spec fn appended_prefix<A>(pre: Seq<A>, post: Seq<A>, intended: Seq<A>) -> bool {
    exists|k: int| 0 <= k <= intended.len() && post == pre + #[trigger] intended.take(k)
}

/// A concrete stopping point witnesses the failure shape.
pub proof fn lemma_appended_prefix<A>(pre: Seq<A>, post: Seq<A>, intended: Seq<A>, k: int)
    requires
        0 <= k <= intended.len(),
        post == pre + intended.take(k),
    ensures
        appended_prefix(pre, post, intended),
{
}

/// The command/data channel the driver owns. Implementations frame one
/// opcode byte as a command transfer and a byte run as a data transfer;
/// `history` is the sequence of transfers accepted so far. A rejected
/// transfer records nothing.
pub trait Bus {
    /// The transfers accepted so far. Implementations that do not track
    /// a ghost history (real hardware transports) inherit the default;
    /// only a verified implementation is held to the method contracts
    /// stated over it.
    open spec fn history(&self) -> Seq<BusWrite> {
        Seq::empty()
    }

    fn send_command(&mut self, opcode: u8) -> (r: Result<(), BusFault>)
        ensures
            r is Ok ==> final(self).history() == old(self).history().push(
                BusWrite::Command(opcode),
            ),
            r is Err ==> final(self).history() == old(self).history(),
    ;

    fn send_data(&mut self, data: &[u8]) -> (r: Result<(), BusFault>)
        ensures
            r is Ok ==> final(self).history() == old(self).history().push(BusWrite::Data(data@)),
            r is Err ==> final(self).history() == old(self).history(),
    ;
}

/// A digital output pin (reset or backlight). `levels` is the sequence of
/// levels the pin was successfully driven to; a failed drive records
/// nothing and is surfaced by the driver as `Error::Pin`.
pub trait OutPin {
    type Fault;

    /// The levels successfully driven so far. Implementations that do
    /// not track a ghost history (real hardware pins) inherit the
    /// default; only a verified implementation is held to the method
    /// contracts stated over it.
    open spec fn levels(&self) -> Seq<Level> {
        Seq::empty()
    }

    fn set_high(&mut self) -> (r: Result<(), Self::Fault>)
        ensures
            r is Ok ==> final(self).levels() == old(self).levels().push(Level::High),
            r is Err ==> final(self).levels() == old(self).levels(),
    ;

    fn set_low(&mut self) -> (r: Result<(), Self::Fault>)
        ensures
            r is Ok ==> final(self).levels() == old(self).levels().push(Level::Low),
            r is Err ==> final(self).levels() == old(self).levels(),
    ;
}

/// A blocking delay provider with microsecond granularity. `delays` is the
/// sequence of waits performed, each in microseconds.
pub trait Delay {
    /// The waits performed so far, each in microseconds. Implementations
    /// that do not track a ghost history (real clocks) inherit the
    /// default; only a verified implementation is held to the method
    /// contract stated over it.
    open spec fn delays(&self) -> Seq<u32> {
        Seq::empty()
    }

    fn delay_us(&mut self, us: u32)
        ensures
            final(self).delays() == old(self).delays().push(us),
    ;
}

/// One recorded transfer, held as plain values so a test can inspect it.
#[derive(Debug, PartialEq, Eq)]
pub enum RecordedWrite {
    Command(u8),
    Data(Vec<u8>),
}

/// A recorded transfer as the transfer it stands for.
pub open spec fn recorded_as(w: RecordedWrite) -> BusWrite {
    match w {
        RecordedWrite::Command(opcode) => BusWrite::Command(opcode),
        RecordedWrite::Data(data) => BusWrite::Data(data@),
    }
}

/// A command/data channel that accepts every transfer and records it:
/// a verified implementation of [`Bus`], which shows the trait's
/// contracts are meetable and lets a test read back the exact traffic.
pub struct RecordingBus {
    writes: Vec<RecordedWrite>,
}

impl RecordingBus {
    /// A channel with nothing recorded yet.
    pub fn new() -> (r: Self)
        ensures
            r.history() == Seq::<BusWrite>::empty(),
    {
        let r = RecordingBus { writes: Vec::new() };
        proof {
            assert(r.history() =~~= Seq::<BusWrite>::empty());
        }
        r
    }

    /// The transfers recorded so far, oldest first.
    pub fn writes(&self) -> (r: &Vec<RecordedWrite>)
        ensures
            r@.map_values(|w: RecordedWrite| recorded_as(w)) == self.history(),
    {
        &self.writes
    }
}

impl Bus for RecordingBus {
    closed spec fn history(&self) -> Seq<BusWrite> {
        self.writes@.map_values(|w: RecordedWrite| recorded_as(w))
    }

    fn send_command(&mut self, opcode: u8) -> (r: Result<(), BusFault>)
        ensures
            r is Ok,
    {
        self.writes.push(RecordedWrite::Command(opcode));
        proof {
            assert(self.history() =~~= old(self).history().push(BusWrite::Command(opcode)));
        }
        Ok(())
    }

    fn send_data(&mut self, data: &[u8]) -> (r: Result<(), BusFault>)
        ensures
            r is Ok,
    {
        let copy = copy_bytes(data);
        self.writes.push(RecordedWrite::Data(copy));
        proof {
            assert(self.history() =~~= old(self).history().push(BusWrite::Data(data@)));
        }
        Ok(())
    }
}

/// An output pin that accepts every drive and records it: a verified
/// implementation of [`OutPin`].
pub struct RecordingPin {
    driven: Vec<Level>,
}

impl RecordingPin {
    /// A pin with nothing recorded yet.
    pub fn new() -> (r: Self)
        ensures
            r.levels() == Seq::<Level>::empty(),
    {
        RecordingPin { driven: Vec::new() }
    }

    /// The levels recorded so far, oldest first.
    pub fn driven(&self) -> (r: &Vec<Level>)
        ensures
            r@ == self.levels(),
    {
        &self.driven
    }
}

impl OutPin for RecordingPin {
    type Fault = PinFault;

    closed spec fn levels(&self) -> Seq<Level> {
        self.driven@
    }

    fn set_high(&mut self) -> (r: Result<(), PinFault>)
        ensures
            r is Ok,
    {
        self.driven.push(Level::High);
        Ok(())
    }

    fn set_low(&mut self) -> (r: Result<(), PinFault>)
        ensures
            r is Ok,
    {
        self.driven.push(Level::Low);
        Ok(())
    }
}

/// A delay provider that waits for no time at all and records each
/// requested wait: a verified implementation of [`Delay`].
pub struct RecordingDelay {
    waits: Vec<u32>,
}

impl RecordingDelay {
    /// A provider with nothing recorded yet.
    pub fn new() -> (r: Self)
        ensures
            r.delays() == Seq::<u32>::empty(),
    {
        RecordingDelay { waits: Vec::new() }
    }

    /// The waits recorded so far, oldest first, in microseconds.
    pub fn waits(&self) -> (r: &Vec<u32>)
        ensures
            r@ == self.delays(),
    {
        &self.waits
    }
}

impl Delay for RecordingDelay {
    closed spec fn delays(&self) -> Seq<u32> {
        self.waits@
    }

    fn delay_us(&mut self, us: u32) {
        self.waits.push(us);
    }
}

/// Copies a byte run into an owned vector.
fn copy_bytes(data: &[u8]) -> (r: Vec<u8>)
    ensures
        r@ == data@,
{
    let mut copy: Vec<u8> = Vec::new();
    let mut i: usize = 0;
    while i < data.len()
        invariant
            0 <= i <= data@.len(),
            copy@ == data@.take(i as int),
        decreases data@.len() - i,
    {
        copy.push(data[i]);
        proof {
            assert(copy@ =~= data@.take(i + 1 as int));
        }
        i = i + 1;
    }
    proof {
        assert(data@.take(data@.len() as int) =~= data@);
    }
    copy
}

} // verus!
