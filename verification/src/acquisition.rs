//! The decisions of the acquisition loop.
//!
//! The loop connects once, then reads frame after frame and publishes each
//! into the snapshot, until a read comes back short. Connecting and reading
//! are the caller's work; what to make of their outcome is decided here.
//! An outcome that the phase does not wait for changes nothing.

use crate::frame::{is_frame_len, packed_words, refusal, DecodeError, PAYLOAD_SIZE};
use crate::snapshot::{published, Measurements};
use vstd::prelude::*;

verus! {

/// Where the acquisition stands.
#[derive(Debug, Clone, Copy, PartialEq, Eq, Structural)]
pub enum Phase {
    /// Not connected yet.
    Connecting,
    /// Connected, and reading frames.
    Streaming,
    /// Over, for good: there is no reconnecting.
    Stopped,
}

/// What the driver of the loop does next.
#[derive(Debug, Clone, Copy, PartialEq, Eq, Structural)]
pub enum Action {
    /// Open the connection, then report with `on_connect`.
    Connect,
    /// Read into a buffer of `PAYLOAD_SIZE` bytes, then report what was
    /// received with `on_read`, or a failure with `on_read_error`.
    ReadFrame,
    /// Leave the loop.
    Halt,
}

/// The action that a phase calls for.
pub open spec fn action_of(phase: Phase) -> Action {
    match phase {
        Phase::Connecting => Action::Connect,
        Phase::Streaming => Action::ReadFrame,
        Phase::Stopped => Action::Halt,
    }
}

/// The phase after an attempt to connect.
pub open spec fn after_connect(phase: Phase, connected: bool) -> Phase {
    match phase {
        Phase::Connecting => if connected {
            Phase::Streaming
        } else {
            Phase::Stopped
        },
        _ => phase,
    }
}

/// The phase after a read that brought `len` bytes: streaming goes on after
/// a whole frame and stops after anything else.
pub open spec fn after_read(phase: Phase, len: nat) -> Phase {
    match phase {
        Phase::Streaming => if is_frame_len(len) {
            Phase::Streaming
        } else {
            Phase::Stopped
        },
        _ => phase,
    }
}

/// The phase after a read that failed.
pub open spec fn after_read_error(phase: Phase) -> Phase {
    match phase {
        Phase::Streaming => Phase::Stopped,
        _ => phase,
    }
}

/// The snapshot after a read that brought `received`: while streaming, a
/// whole frame is published; otherwise the snapshot stays as it is.
pub open spec fn snapshot_after_read(phase: Phase, before: Seq<u32>, received: Seq<u8>) -> Seq<
    u32,
> {
    match phase {
        Phase::Streaming => published(before, received),
        _ => before,
    }
}

/// Phase and snapshot after a series of reads, each reported in turn.
pub open spec fn after_reads(phase: Phase, before: Seq<u32>, reads: Seq<Seq<u8>>) -> (
    Phase,
    Seq<u32>,
)
    decreases reads.len(),
{
    if reads.len() == 0 {
        (phase, before)
    } else {
        let (p, s) = after_reads(phase, before, reads.drop_last());
        (after_read(p, reads.last().len()), snapshot_after_read(p, s, reads.last()))
    }
}

/// The state of one acquisition loop.
pub struct Acquisition {
    phase: Phase,
}

impl View for Acquisition {
    type V = Phase;

    closed spec fn view(&self) -> Phase {
        self.phase
    }
}

impl Acquisition {
    /// A loop that has not connected yet.
    pub fn new() -> (a: Self)
        ensures
            a@ == Phase::Connecting,
    {
        Acquisition { phase: Phase::Connecting }
    }

    /// The phase the loop is in.
    pub fn phase(&self) -> (p: Phase)
        ensures
            p == self@,
    {
        self.phase
    }

    /// What the driver does next.
    pub fn action(&self) -> (a: Action)
        ensures
            a == action_of(self@),
    {
        match self.phase {
            Phase::Connecting => Action::Connect,
            Phase::Streaming => Action::ReadFrame,
            Phase::Stopped => Action::Halt,
        }
    }

    /// Reports the attempt to connect: success starts the streaming, failure
    /// ends the acquisition.
    pub fn on_connect(&mut self, connected: bool)
        ensures
            final(self)@ == after_connect(old(self)@, connected),
    {
        match self.phase {
            Phase::Connecting => {
                if connected {
                    self.phase = Phase::Streaming;
                } else {
                    self.phase = Phase::Stopped;
                }
            },
            _ => {},
        }
    }

    /// Reports a read that failed: the acquisition ends, the snapshot is not
    /// touched.
    pub fn on_read_error(&mut self)
        ensures
            final(self)@ == after_read_error(old(self)@),
    {
        match self.phase {
            Phase::Streaming => {
                self.phase = Phase::Stopped;
            },
            _ => {},
        }
    }

    /// Reports a read and what it received.
    ///
    /// While streaming, a whole frame is decoded and published, and the loop
    /// goes on. Fewer bytes than a frame are the end of the stream: the loop
    /// stops, the snapshot keeps what it held, and that is no error. The
    /// loop does not wait for a remainder that the transport might still
    /// deliver. More bytes than a frame are a malformed frame: the loop
    /// stops, the snapshot keeps what it held, and the decoder's error is
    /// returned.
    pub fn on_read(&mut self, snapshot: &mut Measurements, received: &[u8]) -> (r: Result<
        (),
        DecodeError,
    >)
        ensures
            final(self)@ == after_read(old(self)@, received@.len()),
            final(snapshot)@ == snapshot_after_read(old(self)@, old(snapshot)@, received@),
            r.is_err() <==> old(self)@ == Phase::Streaming && received@.len() > PAYLOAD_SIZE,
            r matches Err(e) ==> e == refusal(received@.len()),
            old(self)@ == Phase::Streaming && received@.len() < PAYLOAD_SIZE ==> {
                &&& final(self)@ == Phase::Stopped
                &&& final(snapshot)@ == old(snapshot)@
                &&& r.is_ok()
            },
            old(self)@ == Phase::Streaming && received@.len() == PAYLOAD_SIZE ==> {
                &&& final(self)@ == Phase::Streaming
                &&& final(snapshot)@ == packed_words(received@)
            },
    {
        match self.phase {
            Phase::Streaming => {
                if received.len() < PAYLOAD_SIZE {
                    self.phase = Phase::Stopped;
                    return Ok(());
                }
                match snapshot.update_from_buf(received) {
                    Ok(()) => Ok(()),
                    Err(e) => {
                        self.phase = Phase::Stopped;
                        Err(e)
                    },
                }
            },
            _ => Ok(()),
        }
    }
}

/// Last write wins: while streaming, after any number of whole frames, one
/// at least, the snapshot holds the last frame's samples and nothing of an
/// earlier one, and the loop is still streaming.
pub proof fn law_last_write_wins(before: Seq<u32>, frames: Seq<Seq<u8>>)
    requires
        frames.len() > 0,
        forall|i: int| 0 <= i < frames.len() ==> is_frame_len(#[trigger] frames[i].len()),
    ensures
        after_reads(Phase::Streaming, before, frames) == (
            Phase::Streaming,
            packed_words(frames.last()),
        ),
    decreases frames.len(),
{
    let head = frames.drop_last();
    if head.len() == 0 {
        assert(after_reads(Phase::Streaming, before, head) == (Phase::Streaming, before));
    } else {
        assert forall|i: int| 0 <= i < head.len() implies is_frame_len(
            #[trigger] head[i].len(),
        ) by {
            assert(head[i] == frames[i]);
        }
        law_last_write_wins(before, head);
    }
}

/// A stopped acquisition stays stopped, and no read reported to it changes
/// the snapshot.
pub proof fn law_stopped_is_final(before: Seq<u32>, reads: Seq<Seq<u8>>)
    ensures
        after_reads(Phase::Stopped, before, reads) == (Phase::Stopped, before),
    decreases reads.len(),
{
    if reads.len() > 0 {
        law_stopped_is_final(before, reads.drop_last());
    }
}

/// Reads reported one after another: the state after two series is the state
/// that the second series leads to from where the first one ended.
pub proof fn law_reads_in_turn(
    phase: Phase,
    before: Seq<u32>,
    first: Seq<Seq<u8>>,
    second: Seq<Seq<u8>>,
)
    ensures
        after_reads(phase, before, first + second) == after_reads(
            after_reads(phase, before, first).0,
            after_reads(phase, before, first).1,
            second,
        ),
    decreases second.len(),
{
    if second.len() == 0 {
        assert(first + second =~= first);
    } else {
        assert((first + second).drop_last() =~= first + second.drop_last());
        assert((first + second).last() == second.last());
        law_reads_in_turn(phase, before, first, second.drop_last());
    }
}

/// A short read ends the acquisition and leaves the snapshot alone: after
/// whole frames, then a read of fewer bytes than a frame, then any reads at
/// all, the loop is stopped and the snapshot is what the whole frames left.
pub proof fn law_short_read_ends(
    before: Seq<u32>,
    frames: Seq<Seq<u8>>,
    short: Seq<u8>,
    later: Seq<Seq<u8>>,
)
    requires
        forall|i: int| 0 <= i < frames.len() ==> is_frame_len(#[trigger] frames[i].len()),
        short.len() < PAYLOAD_SIZE,
    ensures
        after_reads(Phase::Streaming, before, frames.push(short) + later) == (
            Phase::Stopped,
            after_reads(Phase::Streaming, before, frames).1,
        ),
        after_reads(Phase::Streaming, before, frames).1 == if frames.len() == 0 {
            before
        } else {
            packed_words(frames.last())
        },
{
    let (_, s) = after_reads(Phase::Streaming, before, frames);
    if frames.len() > 0 {
        law_last_write_wins(before, frames);
    }
    let upto = frames.push(short);
    assert(upto.drop_last() =~= frames);
    law_reads_in_turn(Phase::Streaming, before, upto, later);
    law_stopped_is_final(s, later);
}

} // verus!
