//! The measurement snapshot: the one most recent frame, and the plot points
//! it gives.

use crate::axis::{channel_ticks, x_ticks};
use crate::frame::{decode, is_frame_len, packed_words, refusal, DecodeError, CHANNELS};
use vstd::prelude::*;

verus! {

/// One point of the plot, before it is turned into numbers to draw: the
/// channel's place on the frequency axis, and its sample.
#[derive(Debug, Clone, Copy, PartialEq, Eq)]
pub struct PlotPoint {
    /// The channel's position on the frequency axis, in ticks.
    pub x_ticks: u32,
    /// The channel's power sample, as the bits of an IEEE-754 single.
    pub power_bits: u32,
}

/// The plot points of a sample vector: channel by channel, its position on
/// the axis and its sample.
pub open spec fn plot_points(samples: Seq<u32>) -> Seq<PlotPoint> {
    Seq::new(
        samples.len(),
        |i: int| (PlotPoint { x_ticks: x_ticks(i) as u32, power_bits: samples[i] }),
    )
}

/// What a snapshot holds after `bytes` was offered to it: the frame's samples
/// where `bytes` is a frame, and what it held before where not.
pub open spec fn published(before: Seq<u32>, bytes: Seq<u8>) -> Seq<u32> {
    if is_frame_len(bytes.len()) {
        packed_words(bytes)
    } else {
        before
    }
}

/// The most recent frame's samples, one per channel ("Stokes" power), each as
/// the bits of an IEEE-754 single. There is no history: a new frame replaces
/// the whole vector.
pub struct Measurements {
    stokes: Vec<u32>,
}

impl View for Measurements {
    type V = Seq<u32>;

    closed spec fn view(&self) -> Seq<u32> {
        self.stokes@
    }
}

impl Measurements {
    #[verifier::type_invariant]
    spec fn well_formed(&self) -> bool {
        self.stokes@.len() == CHANNELS
    }

    /// A snapshot of zeros: what is shown before the first frame arrives.
    pub fn new() -> (m: Self)
        ensures
            m@ == Seq::new(CHANNELS as nat, |i: int| 0u32),
    {
        let mut stokes: Vec<u32> = Vec::with_capacity(CHANNELS);
        let mut i: usize = 0;
        while i < CHANNELS
            invariant
                i <= CHANNELS,
                stokes@.len() == i,
                forall|k: int| 0 <= k < i ==> stokes@[k] == 0u32,
            decreases CHANNELS - i,
        {
            stokes.push(0u32);
            i += 1;
        }
        assert(stokes@ =~= Seq::new(CHANNELS as nat, |i: int| 0u32));
        Measurements { stokes }
    }

    /// The samples, channel by channel.
    pub fn stokes(&self) -> (s: &[u32])
        ensures
            s@ == self@,
            s@.len() == CHANNELS,
    {
        proof {
            use_type_invariant(self);
        }
        self.stokes.as_slice()
    }

    /// Offers a payload to the snapshot. A frame replaces every sample,
    /// whatever was held before; any other payload is refused and changes
    /// nothing.
    pub fn update_from_buf(&mut self, buf: &[u8]) -> (r: Result<(), DecodeError>)
        ensures
            r.is_ok() <==> is_frame_len(buf@.len()),
            r.is_ok() ==> final(self)@ == packed_words(buf@),
            r matches Err(e) ==> e == refusal(buf@.len()) && final(self)@ == old(self)@,
            final(self)@ == published(old(self)@, buf@),
            final(self)@.len() == CHANNELS,
    {
        proof {
            use_type_invariant(&*self);
        }
        match decode(buf) {
            Ok(words) => {
                self.stokes = words;
                Ok(())
            },
            Err(e) => Err(e),
        }
    }

    /// The plot points of the snapshot, one per channel in the channels'
    /// order.
    pub fn values(&self) -> (points: Vec<PlotPoint>)
        ensures
            points@ == plot_points(self@),
            points@.len() == CHANNELS,
    {
        proof {
            use_type_invariant(self);
        }
        let mut points: Vec<PlotPoint> = Vec::with_capacity(CHANNELS);
        let mut i: usize = 0;
        while i < CHANNELS
            invariant
                i <= CHANNELS,
                self.stokes@.len() == CHANNELS,
                points@.len() == i,
                forall|k: int| 0 <= k < i ==> #[trigger] points@[k] == plot_points(self.stokes@)[k],
            decreases CHANNELS - i,
        {
            points.push(PlotPoint { x_ticks: channel_ticks(i), power_bits: self.stokes[i] });
            i += 1;
        }
        assert(points@ =~= plot_points(self@));
        points
    }
}

} // verus!
