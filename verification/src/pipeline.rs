//! The forwarding loop as a state machine: each call to `step` takes the
//! event the surrounding process observed and decides the next action —
//! read more bytes, write a payload to one consumer, or finish.
use vstd::prelude::*;
use vstd::pervasive::unreached;
use crate::framer::{PendingBuffer, handle_serial_data, lossy_of, feed_spec_buf, feed_spec_line,
    trim_spec};
use crate::validator::{ValidatedLine, validate, json_parses};
use crate::registry::{ConnectionManager, SlotId, slot_index, next_connected_from};

verus! {

/// The UTF-8 encoding of a piece of text.
pub uninterp spec fn utf8_of(s: Seq<char>) -> Seq<u8>;

/// Whether every character of `s` is ASCII.
pub open spec fn all_ascii_chars(s: Seq<char>) -> bool {
    forall|i: int| 0 <= i < s.len() ==> (s[i] as u32) < 128
}

/// The bytes an ASCII text encodes to, one per character.
pub open spec fn bytes_of_ascii(s: Seq<char>) -> Seq<u8> {
    Seq::new(s.len(), |i: int| s[i] as u8)
}

/// Relies on `String`'s UTF-8 encoding (`FromIterator<char>` collection and
/// `String::into_bytes`): the encoding depends on the characters alone, and
/// ASCII characters encode as the single identical bytes.
#[verifier::external_body]
fn encode_utf8(text: &Vec<char>) -> (r: Vec<u8>)
    ensures
        r@ == utf8_of(text@),
        all_ascii_chars(text@) ==> r@ == bytes_of_ascii(text@),
{
    let s: String = text.iter().collect();
    s.into_bytes()
}

/// What goes out on the wire for a validated line: its UTF-8 bytes followed
/// by a single newline terminator.
pub open spec fn wire_of(line: Seq<char>) -> Seq<u8> {
    utf8_of(line) + seq![10u8]
}

/// The exact bytes forwarded for `v`: its text, UTF-8 encoded, verbatim,
/// with the newline terminator appended.
pub fn wire_bytes(v: &ValidatedLine) -> (r: Vec<u8>)
    ensures
        r@ == wire_of(v@),
        all_ascii_chars(v@) ==> r@ == bytes_of_ascii(v@) + seq![10u8],
{
    let mut b = encode_utf8(v.as_chars());
    b.push(10u8);
    proof {
        assert(b@ =~= utf8_of(v@) + seq![10u8]);
    }
    b
}

/// Byte-for-byte copy of `v`.
fn copy_bytes(v: &Vec<u8>) -> (r: Vec<u8>)
    ensures
        r@ == v@,
{
    let mut out: Vec<u8> = Vec::new();
    let mut i: usize = 0;
    while i < v.len()
        invariant
            0 <= i <= v@.len(),
            out@ == v@.take(i as int),
        decreases v@.len() - i,
    {
        out.push(v[i]);
        proof {
            assert(out@ =~= v@.take(i + 1 as int));
        }
        i = i + 1;
    }
    proof {
        assert(v@.take(v@.len() as int) =~= v@);
    }
    out
}

/// The loop's steady state: reading from the byte source, part-way through
/// delivering one payload to the connected slots, or terminated.
pub enum Phase {
    Reading,
    Delivering { payload: Vec<u8>, next: SlotId },
    Stopped,
}

/// What the surrounding process observed and hands to the machine.
pub enum Event {
    /// A read returned this chunk (possibly empty).
    Bytes(Vec<u8>),
    /// The read timed out: no data yet, not an error.
    Timeout,
    /// The read failed fatally.
    ReadFailed,
    /// The write the machine last asked for succeeded.
    WriteOk,
    /// The write the machine last asked for failed.
    WriteFailed,
}

/// How the run ended. A read error terminates the loop without escalating;
/// a write error terminates it as a process-level error.
#[derive(PartialEq, Eq, Structural, Clone, Copy, Debug)]
pub enum Outcome {
    ReadError,
    WriteError,
}

/// What the machine asks the surrounding process to do next.
pub enum Action {
    /// Read from the byte source (with the short timeout).
    Read,
    /// Write `payload` to the connection of `slot`.
    Write { slot: SlotId, payload: Vec<u8> },
    /// Terminate the run.
    Finish { outcome: Outcome },
}

/// The forwarding loop's state: the framer's pending buffer, the consumer
/// registry, and the current phase.
pub struct Pipeline {
    pub buffer: PendingBuffer,
    pub registry: ConnectionManager,
    pub phase: Phase,
}

/// Which events can arrive in which phase: reads only while reading, write
/// outcomes only while delivering, nothing once stopped.
pub open spec fn event_fits(p: Pipeline, e: Event) -> bool {
    match p.phase {
        Phase::Reading => e is Bytes || e is Timeout || e is ReadFailed,
        Phase::Delivering { .. } => e is WriteOk || e is WriteFailed,
        Phase::Stopped => false,
    }
}

/// Once the machine has stopped — in particular after a failed write — no
/// event fits it any more: no further forwarding of any kind occurs.
pub proof fn lemma_stopped_accepts_no_event(p: Pipeline, e: Event)
    requires
        p.phase is Stopped,
    ensures
        !event_fits(p, e),
{
}

impl Pipeline {
    /// Enter the loop: buffer empty, in the reading state, with the already
    /// connected registry.
    pub fn new(registry: ConnectionManager) -> (r: Self)
        ensures
            r.registry == registry,
            r.buffer@ == Seq::<char>::empty(),
            r.phase is Reading,
    {
        Pipeline { buffer: PendingBuffer::new(), registry, phase: Phase::Reading }
    }

    /// One decision of the forwarding loop.
    ///
    /// While reading: a timeout loops back to reading; a fatal read error
    /// stops the run with `ReadError`; a chunk is fed to the framer, and a
    /// complete line that validates as JSON starts a delivery of its wire
    /// bytes to the first connected slot, in slot order — an incomplete
    /// line, an invalid line, or an empty consumer set loops back to
    /// reading. While delivering: a successful write moves on to the next
    /// connected slot, or back to reading when none is left; a failed write
    /// stops the run with `WriteError` without attempting later slots.
    pub fn step(&mut self, event: Event) -> (a: Action)
        requires
            event_fits(*old(self), event),
        ensures
            final(self).registry == old(self).registry,
            old(self).phase is Reading && event is Timeout ==> *final(self) == *old(self) && a
                is Read,
            old(self).phase is Reading && event is ReadFailed ==> final(self).buffer == old(
                self,
            ).buffer && final(self).phase is Stopped && (a matches Action::Finish { outcome }
                && outcome is ReadError),
            event matches Event::Bytes(chunk) ==> old(self).phase is Reading ==> ({
                let s = old(self).buffer@ + lossy_of(chunk@);
                &&& final(self).buffer@ == feed_spec_buf(s)
                &&& match feed_spec_line(s) {
                    Option::None => final(self).phase is Reading && a is Read,
                    Option::Some(raw) => ({
                        let line = trim_spec(raw);
                        if json_parses(line) {
                            match next_connected_from(old(self).registry, 0) {
                                Option::Some(slot) => {
                                    &&& (final(self).phase matches Phase::Delivering {
                                        payload,
                                        next,
                                    } && payload@ == wire_of(line) && next == slot)
                                    &&& (a matches Action::Write { slot: ws, payload: wp } && ws
                                        == slot && wp@ == wire_of(line))
                                },
                                Option::None => final(self).phase is Reading && a is Read,
                            }
                        } else {
                            final(self).phase is Reading && a is Read
                        }
                    }),
                }
            }),
            old(self).phase matches Phase::Delivering { payload, next } ==> event is WriteOk
                ==> (final(self).buffer == old(self).buffer && match next_connected_from(
                old(self).registry,
                slot_index(next) + 1,
            ) {
                Option::Some(s2) => {
                    &&& (final(self).phase matches Phase::Delivering { payload: p2, next: n2 }
                        && p2@ == payload@ && n2 == s2)
                    &&& (a matches Action::Write { slot: ws, payload: wp } && ws == s2 && wp@
                        == payload@)
                },
                Option::None => final(self).phase is Reading && a is Read,
            }),
            old(self).phase is Delivering && event is WriteFailed ==> final(self).buffer == old(
                self,
            ).buffer && final(self).phase is Stopped && (a matches Action::Finish { outcome }
                && outcome is WriteError),
    {
        match event {
            Event::Timeout => Action::Read,
            Event::ReadFailed => {
                self.phase = Phase::Stopped;
                Action::Finish { outcome: Outcome::ReadError }
            },
            Event::Bytes(chunk) => {
                let line_opt = handle_serial_data(chunk.as_slice(), &mut self.buffer);
                match line_opt {
                    Option::None => Action::Read,
                    Option::Some(line) => {
                        match validate(line) {
                            Result::Err(_) => Action::Read,
                            Result::Ok(v) => {
                                match self.registry.first_connected() {
                                    Option::None => Action::Read,
                                    Option::Some(slot) => {
                                        let payload = wire_bytes(&v);
                                        let wp = copy_bytes(&payload);
                                        self.phase = Phase::Delivering { payload, next: slot };
                                        Action::Write { slot, payload: wp }
                                    },
                                }
                            },
                        }
                    },
                }
            },
            Event::WriteOk => {
                let (payload2, next) = match &self.phase {
                    Phase::Delivering { payload, next } => (copy_bytes(payload), *next),
                    _ => unreached(),
                };
                match self.registry.connected_after(next) {
                    Option::Some(s2) => {
                        let wp = copy_bytes(&payload2);
                        self.phase = Phase::Delivering { payload: payload2, next: s2 };
                        Action::Write { slot: s2, payload: wp }
                    },
                    Option::None => {
                        self.phase = Phase::Reading;
                        Action::Read
                    },
                }
            },
            Event::WriteFailed => {
                self.phase = Phase::Stopped;
                Action::Finish { outcome: Outcome::WriteError }
            },
        }
    }
}

} // verus!
