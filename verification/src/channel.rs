//! Per-channel state: the user's switches, whether the channel carries
//! signal, and where its gain comes from.
use vstd::prelude::*;

verus! {

/// Per-channel user-controllable switches.
#[derive(Debug, Clone, Copy, PartialEq, Eq, Structural)]
pub struct ChannelParams {
    /// The channel is silenced.
    pub muted: bool,
    /// The channel is soloed: while any channel is, only soloed channels
    /// take part.
    pub soloed: bool,
    /// The channel passes through untouched, outside the mix.
    pub bypassed: bool,
}

impl Default for ChannelParams {
    fn default() -> (params: Self)
        ensures
            params == (ChannelParams { muted: false, soloed: false, bypassed: false }),
    {
        ChannelParams { muted: false, soloed: false, bypassed: false }
    }
}

impl ChannelParams {
    /// The channel takes part in gain sharing: it is neither muted nor
    /// bypassed, and it is soloed where any channel is.
    pub open spec fn participates(self, any_solo_active: bool) -> bool {
        !self.muted && !self.bypassed && (!any_solo_active || self.soloed)
    }

    /// Determine if this channel participates in gain sharing.
    ///
    /// A channel participates if it is not muted, not bypassed, and either
    /// no channel is soloed or this channel is.
    pub fn is_participating(&self, any_solo_active: bool) -> (participating: bool)
        ensures
            participating == self.participates(any_solo_active),
        no_unwind
    {
        if self.muted || self.bypassed {
            return false;
        }
        if any_solo_active && !self.soloed {
            return false;
        }
        true
    }
}

/// The gain that a channel is steered towards during one block.
#[derive(Debug, Clone, Copy, PartialEq, Eq, Structural)]
pub enum TargetGain {
    /// No gain: the channel is muted, shut out by another channel's solo,
    /// or takes part without being an open microphone.
    Silent,
    /// The channel's proportional share of the mix, times the attenuation
    /// for the number of open microphones.
    Shared,
    /// Unity gain: the channel is held open through silence.
    Held,
    /// Unity gain at once, without smoothing, and the audio left untouched:
    /// the channel is bypassed.
    Bypassed,
}

/// Per-channel state combining the switches with what the last block found.
#[derive(Debug, Clone, Copy, PartialEq, Eq, Structural)]
pub struct Channel {
    /// Position of the channel in the engine.
    pub index: usize,
    /// The user's switches.
    pub params: ChannelParams,
    /// The gain that the last block steered the channel towards.
    pub raw_gain: TargetGain,
    /// Whether the last block found the channel an open microphone.
    pub is_active: bool,
}

impl Channel {
    /// The channel at `index` with default switches that has seen no block
    /// yet.
    pub open spec fn fresh(index: usize) -> Self {
        Channel {
            index,
            params: ChannelParams { muted: false, soloed: false, bypassed: false },
            raw_gain: TargetGain::Silent,
            is_active: false,
        }
    }

    /// A channel with default switches that has seen no block yet.
    pub fn new(index: usize) -> (channel: Self)
        ensures
            channel == Channel::fresh(index),
    {
        Channel {
            index,
            params: ChannelParams::default(),
            raw_gain: TargetGain::Silent,
            is_active: false,
        }
    }

    /// Reset what the blocks left behind; index and switches stay.
    pub fn reset(&mut self)
        ensures
            *final(self) == (Channel {
                raw_gain: TargetGain::Silent,
                is_active: false,
                ..*old(self)
            }),
        no_unwind
    {
        self.raw_gain = TargetGain::Silent;
        self.is_active = false;
    }
}

/// A muted channel never takes part, whatever the solo switches say, and
/// neither does a bypassed one.
pub proof fn lemma_muted_or_bypassed_stays_out(params: ChannelParams, any_solo_active: bool)
    requires
        params.muted || params.bypassed,
    ensures
        !params.participates(any_solo_active),
{
}

/// While some channel is soloed exactly the soloed channels that are
/// neither muted nor bypassed take part; while none is, every channel that
/// is neither muted nor bypassed does.
pub proof fn lemma_solo_narrows_participation(params: ChannelParams)
    ensures
        params.participates(true) <==> params.soloed && !params.muted && !params.bypassed,
        params.participates(false) <==> !params.muted && !params.bypassed,
        params.participates(true) ==> params.participates(false),
{
}

} // verus!
