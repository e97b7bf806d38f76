//! The engine: every decision of the block pipeline that is made on
//! switches, flags and counts.
//!
//! A block runs in four steps. `begin_block` settles whether the block is
//! processed at all and which channels take part. The caller then measures
//! the levels and says which channels are above their noise floor;
//! `detect_activity` turns that into the open microphones and the held
//! channel. The caller sums the weighted levels of the open microphones and
//! says whether there is signal; `share_gains` settles every channel's
//! target gain and the attenuation for the number of open microphones.
//! `end_block` counts the samples and closes the block. Between
//! `begin_block` and `end_block` the engine remembers the block, so that
//! every step works on the same channels and samples.
use vstd::prelude::*;
use crate::channel::{Channel, ChannelParams, TargetGain};
use crate::constants::{
    AUTOMIX_MAX_BLOCK_SIZE, AUTOMIX_MAX_CHANNELS, DEFAULT_HOLD_TIME_MS, MAX_HOLD_TIME_MS,
};
use crate::gain_sharing::{
    compute_dugan_gains, gain_share, lemma_gain_needs_participation, open_mic_count, GainShare,
    GainSharingResult,
};
use crate::last_mic_hold::{
    hold_step, lemma_held_channel, lemma_hold_step_keeps_wf, HoldState, LastMicHold,
};
use crate::math_utils::samples_in_u64;
use crate::nom::{attenuating_count, NomAttenuation, NomState};
use crate::open_mics::is_open;

verus! {

/// The part of a block that the engine processes.
#[derive(Debug, Clone, Copy, PartialEq, Eq, Structural)]
pub struct Block {
    /// Number of channels to process, from channel zero up.
    pub channels: usize,
    /// Number of samples to process in each of them, from the first on.
    pub samples: usize,
}

/// The gain that a processed channel is steered towards: unity at once
/// where it is bypassed, its share of the mix where it takes part, nothing
/// otherwise.
pub open spec fn target_gain(
    params: ChannelParams,
    participating: bool,
    share: GainShare,
) -> TargetGain {
    if params.bypassed {
        TargetGain::Bypassed
    } else if participating {
        match share {
            GainShare::Zero => TargetGain::Silent,
            GainShare::Proportional => TargetGain::Shared,
            GainShare::Unity => TargetGain::Held,
        }
    } else {
        TargetGain::Silent
    }
}

/// The samples of a block that are processed: all of them, up to the
/// ceiling for a single call.
pub open spec fn block_samples(num_samples: nat) -> nat {
    if num_samples <= AUTOMIX_MAX_BLOCK_SIZE {
        num_samples
    } else {
        AUTOMIX_MAX_BLOCK_SIZE as nat
    }
}

/// Advancing the lifetime sample counter; it stops at the top of its range.
pub open spec fn advance_samples(counter: nat, samples: nat) -> nat {
    if counter + samples <= u64::MAX {
        counter + samples
    } else {
        u64::MAX as nat
    }
}

/// What an `AutomixEngine` holds, as plain mathematical values.
pub struct EngineState {
    /// Configured number of channels.
    pub num_channels: nat,
    /// Sample rate in hertz.
    pub sample_rate: nat,
    /// While set, blocks pass through untouched.
    pub global_bypass: bool,
    /// All channel slots; those past `num_channels` are never touched.
    pub channels: Seq<Channel>,
    /// Which channels took part in the block last begun.
    pub participating: Seq<bool>,
    /// Which channels were open microphones in the block last measured.
    pub is_active: Seq<bool>,
    /// The last-microphone hold.
    pub hold: HoldState,
    /// The attenuation for the number of open microphones.
    pub nom: NomState,
    /// The number of open microphones that the last block reported.
    pub nom_count: nat,
    /// Samples processed over the engine's lifetime.
    pub sample_counter: nat,
    /// The block in progress, between its first and its last step.
    pub block: Option<Block>,
}

impl EngineState {
    /// The state of a real engine.
    pub open spec fn wf(self) -> bool {
        &&& self.num_channels <= AUTOMIX_MAX_CHANNELS
        &&& self.channels.len() == AUTOMIX_MAX_CHANNELS
        &&& self.participating.len() == AUTOMIX_MAX_CHANNELS
        &&& self.is_active.len() == AUTOMIX_MAX_CHANNELS
        &&& forall|i: int|
            0 <= i < AUTOMIX_MAX_CHANNELS ==> (#[trigger] self.channels[i]).index == i
        &&& self.hold.wf()
        &&& self.sample_counter <= u64::MAX
        &&& self.block is Some ==> {
            &&& 1 <= self.block.unwrap().channels <= self.num_channels
            &&& 1 <= self.block.unwrap().samples <= AUTOMIX_MAX_BLOCK_SIZE
        }
    }

    /// The channels of a block that are processed: as many as requested,
    /// up to the configured number.
    pub open spec fn block_channels(self, requested: nat) -> nat {
        if requested <= self.num_channels {
            requested
        } else {
            self.num_channels
        }
    }

    /// The block is left untouched: there is no channel or no sample to
    /// process, or the engine is bypassed.
    pub open spec fn skips(self, requested: nat, num_samples: nat) -> bool {
        self.block_channels(requested) == 0 || num_samples == 0 || self.global_bypass
    }

    /// Some channel among the first `n` is soloed.
    pub open spec fn any_solo(self, n: nat) -> bool {
        exists|i: int| 0 <= i < n && (#[trigger] self.channels[i]).params.soloed
    }

    /// The channel that the hold pins at unity gain.
    pub open spec fn held_channel(self) -> Option<usize> {
        if self.hold.holding {
            self.hold.last_active
        } else {
            None
        }
    }

    /// Replace the switches of channel `channel`, if the engine has it.
    pub open spec fn with_params(self, channel: nat, params: ChannelParams) -> Self {
        if channel < self.num_channels {
            EngineState {
                channels: self.channels.update(
                    channel as int,
                    Channel { params, ..self.channels[channel as int] },
                ),
                ..self
            }
        } else {
            self
        }
    }

    /// The state after the first step of a block. A block that is left
    /// untouched only closes a block that was still in progress. Otherwise
    /// the block is in progress, and every processed channel takes part as
    /// its switches and the solo state say.
    pub open spec fn after_begin(self, requested: nat, num_samples: nat) -> Self {
        if self.skips(requested, num_samples) {
            EngineState { block: None, ..self }
        } else {
            let n = self.block_channels(requested);
            EngineState {
                participating: Seq::new(
                    AUTOMIX_MAX_CHANNELS as nat,
                    |i: int|
                        if i < n {
                            self.channels[i].params.participates(self.any_solo(n))
                        } else {
                            self.participating[i]
                        },
                ),
                block: Some(
                    Block { channels: n as usize, samples: block_samples(num_samples) as usize },
                ),
                ..self
            }
        }
    }

    /// The activity flags of the block in progress: a processed channel is
    /// an open microphone where it takes part and is above its noise floor.
    pub open spec fn activity(self, above_floor: Seq<bool>) -> Seq<bool> {
        Seq::new(
            AUTOMIX_MAX_CHANNELS as nat,
            |i: int|
                if i < self.block.unwrap().channels {
                    self.participating[i] && above_floor[i]
                } else {
                    self.is_active[i]
                },
        )
    }

    /// The state after the second step of a block, and the channel held at
    /// unity gain: the activity flags are set and copied into the channels,
    /// and the hold is updated with them. Without a block in progress
    /// nothing changes.
    pub open spec fn after_activity(self, above_floor: Seq<bool>) -> (Self, Option<usize>) {
        match self.block {
            None => (self, None),
            Some(block) => {
                let is_active = self.activity(above_floor);
                let (hold, held) = hold_step(
                    self.hold,
                    is_active,
                    self.participating,
                    block.channels as nat,
                    block.samples as nat,
                );
                (
                    EngineState {
                        is_active,
                        channels: Seq::new(
                            AUTOMIX_MAX_CHANNELS as nat,
                            |i: int|
                                if i < block.channels {
                                    Channel { is_active: is_active[i], ..self.channels[i] }
                                } else {
                                    self.channels[i]
                                },
                        ),
                        hold,
                        ..self
                    },
                    held,
                )
            },
        }
    }

    /// The gain of channel `i` in the third step of the block in progress.
    pub open spec fn share_of(self, signal_present: bool, i: int) -> GainShare {
        gain_share(
            self.is_active,
            self.participating,
            self.block.unwrap().channels as nat,
            self.held_channel(),
            signal_present,
            i,
        )
    }

    /// The number of open microphones in the third step of the block in
    /// progress.
    pub open spec fn nom_of(self, signal_present: bool) -> nat {
        open_mic_count(
            self.is_active,
            self.participating,
            self.block.unwrap().channels as nat,
            self.held_channel(),
            signal_present,
        )
    }

    /// The state after the third step of a block: every processed channel
    /// has its target gain, and the attenuation follows the number of open
    /// microphones. Without a block in progress nothing changes.
    pub open spec fn after_sharing(self, signal_present: bool) -> Self {
        match self.block {
            None => self,
            Some(block) => {
                let nom = self.nom_of(signal_present);
                EngineState {
                    channels: Seq::new(
                        AUTOMIX_MAX_CHANNELS as nat,
                        |i: int|
                            if i < block.channels {
                                Channel {
                                    raw_gain: target_gain(
                                        self.channels[i].params,
                                        self.participating[i],
                                        self.share_of(signal_present, i),
                                    ),
                                    ..self.channels[i]
                                }
                            } else {
                                self.channels[i]
                            },
                    ),
                    nom: NomState {
                        nom,
                        attenuating_nom: attenuating_count(self.nom.enabled, nom),
                        enabled: self.nom.enabled,
                    },
                    nom_count: nom,
                    ..self
                }
            },
        }
    }

    /// The state after the last step of a block: the processed samples are
    /// counted and no block is in progress. Without a block in progress
    /// nothing changes.
    pub open spec fn after_end(self) -> Self {
        match self.block {
            None => self,
            Some(block) => EngineState {
                sample_counter: advance_samples(self.sample_counter, block.samples as nat),
                block: None,
                ..self
            },
        }
    }
}

/// Core automix engine: the decisions of the Dugan gain-sharing pipeline.
pub struct AutomixEngine {
    num_channels: usize,
    sample_rate: u64,
    global_bypass: bool,
    channels: [Channel; AUTOMIX_MAX_CHANNELS],
    participating: [bool; AUTOMIX_MAX_CHANNELS],
    is_active: [bool; AUTOMIX_MAX_CHANNELS],
    last_mic_hold: LastMicHold,
    nom_atten: NomAttenuation,
    nom_count: usize,
    sample_counter: u64,
    block: Option<Block>,
}

impl View for AutomixEngine {
    type V = EngineState;

    closed spec fn view(&self) -> EngineState {
        EngineState {
            num_channels: self.num_channels as nat,
            sample_rate: self.sample_rate as nat,
            global_bypass: self.global_bypass,
            channels: self.channels@,
            participating: self.participating@,
            is_active: self.is_active@,
            hold: self.last_mic_hold@,
            nom: self.nom_atten@,
            nom_count: self.nom_count as nat,
            sample_counter: self.sample_counter as nat,
            block: self.block,
        }
    }
}

impl AutomixEngine {
    /// No more channels are configured than there are slots, every slot
    /// knows its position, and a block in progress lies within the
    /// configured channels and the ceiling for a single call.
    #[verifier::type_invariant]
    closed spec fn inv(&self) -> bool {
        &&& self.num_channels <= AUTOMIX_MAX_CHANNELS
        &&& forall|i: int|
            0 <= i < AUTOMIX_MAX_CHANNELS ==> (#[trigger] self.channels@[i]).index == i
        &&& self.last_mic_hold@.wf()
        &&& self.block is Some ==> {
            &&& 1 <= self.block.unwrap().channels <= self.num_channels
            &&& 1 <= self.block.unwrap().samples <= AUTOMIX_MAX_BLOCK_SIZE
        }
    }

    /// An engine for `num_channels` channels, held to the engine's ceiling,
    /// at the given sample rate in hertz. Every channel has default
    /// switches, the hold has its default time, attenuation is switched on
    /// and no block is in progress.
    pub fn new(num_channels: usize, sample_rate: u64) -> (engine: Self)
        ensures
            engine@.wf(),
            engine@.num_channels == if num_channels <= AUTOMIX_MAX_CHANNELS {
                num_channels
            } else {
                AUTOMIX_MAX_CHANNELS
            },
            engine@.sample_rate == sample_rate,
            !engine@.global_bypass,
            forall|i: int|
                0 <= i < AUTOMIX_MAX_CHANNELS ==> #[trigger] engine@.channels[i] == Channel::fresh(
                    i as usize,
                ),
            forall|i: int| 0 <= i < AUTOMIX_MAX_CHANNELS ==> !engine@.participating[i],
            forall|i: int| 0 <= i < AUTOMIX_MAX_CHANNELS ==> !engine@.is_active[i],
            engine@.hold == (HoldState {
                last_active: None,
                counter: 0,
                duration: samples_in_u64(DEFAULT_HOLD_TIME_MS as nat, sample_rate as nat),
                holding: false,
            }),
            engine@.nom == (NomState { nom: 1, attenuating_nom: 1, enabled: true }),
            engine@.nom_count == 0,
            engine@.sample_counter == 0,
            engine@.block is None,
    {
        let num_channels: usize = if num_channels <= AUTOMIX_MAX_CHANNELS {
            num_channels
        } else {
            AUTOMIX_MAX_CHANNELS
        };
        let mut channels: [Channel; AUTOMIX_MAX_CHANNELS] = [Channel::new(0);
            AUTOMIX_MAX_CHANNELS];
        let mut i: usize = 0;
        while i < AUTOMIX_MAX_CHANNELS
            invariant
                i <= AUTOMIX_MAX_CHANNELS,
                forall|j: int| 0 <= j < i ==> #[trigger] channels@[j] == Channel::fresh(j as usize),
            decreases AUTOMIX_MAX_CHANNELS - i,
        {
            channels[i] = Channel::new(i);
            i += 1;
        }
        AutomixEngine {
            num_channels,
            sample_rate,
            global_bypass: false,
            channels,
            participating: [false; AUTOMIX_MAX_CHANNELS],
            is_active: [false; AUTOMIX_MAX_CHANNELS],
            last_mic_hold: LastMicHold::new(sample_rate),
            nom_atten: NomAttenuation::new(),
            nom_count: 0,
            sample_counter: 0,
            block: None,
        }
    }

    /// The version of the engine.
    pub fn version() -> (version: &'static str)
        ensures
            version@ == "0.1.0"@,
    {
        "0.1.0"
    }

    /// First step of a block: settle whether the block is processed and
    /// which channels take part.
    ///
    /// Returns `None` where there is no channel or no sample to process or
    /// the engine is bypassed: the audio is then left untouched, and
    /// nothing changes but that a block still in progress is closed.
    /// Otherwise returns the part of the block to process, which is then in
    /// progress: the requested channels up to the configured number, and
    /// the samples up to the ceiling for a single call.
    pub fn begin_block(&mut self, num_channels: usize, num_samples: usize) -> (block: Option<Block>)
        ensures
            final(self)@.wf(),
            final(self)@ == old(self)@.after_begin(num_channels as nat, num_samples as nat),
            block == final(self)@.block,
            block is None <==> old(self)@.skips(num_channels as nat, num_samples as nat),
    {
        proof {
            use_type_invariant(&*self);
        }
        let n: usize = if num_channels <= self.num_channels {
            num_channels
        } else {
            self.num_channels
        };
        if n == 0 || num_samples == 0 || self.global_bypass {
            self.block = None;
            return None;
        }
        let mut any_solo: bool = false;
        let mut i: usize = 0;
        while i < n
            invariant
                i <= n <= AUTOMIX_MAX_CHANNELS,
                any_solo == self@.any_solo(i as nat),
            decreases n - i,
        {
            if self.channels[i].params.soloed {
                any_solo = true;
            }
            i += 1;
        }
        let mut participating: [bool; AUTOMIX_MAX_CHANNELS] = self.participating;
        let mut i: usize = 0;
        while i < n
            invariant
                i <= n <= AUTOMIX_MAX_CHANNELS,
                forall|j: int|
                    0 <= j < i ==> participating@[j] == self.channels@[j].params.participates(
                        any_solo,
                    ),
                forall|j: int|
                    i <= j < AUTOMIX_MAX_CHANNELS ==> participating@[j] == self.participating@[j],
            decreases n - i,
        {
            participating[i] = self.channels[i].params.is_participating(any_solo);
            i += 1;
        }
        let samples: usize = if num_samples <= AUTOMIX_MAX_BLOCK_SIZE {
            num_samples
        } else {
            AUTOMIX_MAX_BLOCK_SIZE
        };
        let block = Block { channels: n, samples };
        self.block = Some(block);
        self.participating = participating;
        assert(self@.participating =~= old(self)@.after_begin(
            num_channels as nat,
            num_samples as nat,
        ).participating);
        Some(block)
    }

    /// Second step of a block: given which channels are above their noise
    /// floor, settle the open microphones and update the hold.
    ///
    /// A processed channel is an open microphone where it takes part and is
    /// above its floor. Returns the channel to hold at unity gain, if any.
    /// Without a block in progress nothing changes.
    pub fn detect_activity(&mut self, above_floor: &[bool; AUTOMIX_MAX_CHANNELS]) -> (held: Option<
        usize,
    >)
        ensures
            final(self)@.wf(),
            (final(self)@, held) == old(self)@.after_activity(above_floor@),
            old(self)@.block is Some ==> held == final(self)@.held_channel(),
    {
        proof {
            use_type_invariant(&*self);
        }
        let block = match self.block {
            Some(block) => block,
            None => {
                return None;
            },
        };
        let n: usize = block.channels;
        let participating: [bool; AUTOMIX_MAX_CHANNELS] = self.participating;
        let mut is_active: [bool; AUTOMIX_MAX_CHANNELS] = self.is_active;
        let mut channels: [Channel; AUTOMIX_MAX_CHANNELS] = self.channels;
        let mut i: usize = 0;
        while i < n
            invariant
                i <= n <= AUTOMIX_MAX_CHANNELS,
                forall|j: int|
                    0 <= j < i ==> is_active@[j] == (participating@[j] && above_floor@[j]),
                forall|j: int|
                    i <= j < AUTOMIX_MAX_CHANNELS ==> is_active@[j] == self.is_active@[j],
                forall|j: int|
                    0 <= j < i ==> channels@[j] == (Channel {
                        is_active: is_active@[j],
                        ..self.channels@[j]
                    }),
                forall|j: int| i <= j < AUTOMIX_MAX_CHANNELS ==> channels@[j] == self.channels@[j],
            decreases n - i,
        {
            let active: bool = participating[i] && above_floor[i];
            is_active[i] = active;
            let mut channel: Channel = channels[i];
            channel.is_active = active;
            channels[i] = channel;
            i += 1;
        }
        self.is_active = is_active;
        self.channels = channels;
        let held = self.last_mic_hold.update(&is_active, &participating, n, block.samples);
        proof {
            let expected = old(self)@.after_activity(above_floor@).0;
            assert(self@.is_active =~= expected.is_active);
            assert(self@.channels =~= expected.channels);
            lemma_held_channel(
                old(self)@.hold,
                is_active@,
                participating@,
                n as nat,
                block.samples as nat,
            );
        }
        held
    }

    /// Third step of a block: given whether the open microphones carry
    /// signal, settle every processed channel's target gain and the
    /// attenuation for the number of open microphones.
    ///
    /// Returns the gain-sharing result. Without a block in progress nothing
    /// changes, and the result is all zero.
    pub fn share_gains(&mut self, signal_present: bool) -> (result: GainSharingResult)
        ensures
            final(self)@.wf(),
            final(self)@ == old(self)@.after_sharing(signal_present),
            forall|i: int|
                0 <= i < AUTOMIX_MAX_CHANNELS ==> #[trigger] result.gains[i] == if old(
                    self,
                )@.block is None {
                    GainShare::Zero
                } else {
                    old(self)@.share_of(signal_present, i)
                },
            result.nom == if old(self)@.block is None {
                0
            } else {
                old(self)@.nom_of(signal_present)
            },
    {
        proof {
            use_type_invariant(&*self);
        }
        let block = match self.block {
            Some(block) => block,
            None => {
                return GainSharingResult { gains: [GainShare::Zero; AUTOMIX_MAX_CHANNELS], nom: 0 };
            },
        };
        let n: usize = block.channels;
        let held: Option<usize> = if self.last_mic_hold.is_holding() {
            self.last_mic_hold.last_active_channel()
        } else {
            None
        };
        let result = compute_dugan_gains(
            &self.is_active,
            &self.participating,
            n,
            held,
            signal_present,
        );
        let mut channels: [Channel; AUTOMIX_MAX_CHANNELS] = self.channels;
        let mut i: usize = 0;
        while i < n
            invariant
                i <= n <= AUTOMIX_MAX_CHANNELS,
                forall|j: int|
                    0 <= j < i ==> channels@[j] == (Channel {
                        raw_gain: target_gain(
                            self.channels@[j].params,
                            self.participating@[j],
                            result.gains@[j],
                        ),
                        ..self.channels@[j]
                    }),
                forall|j: int| i <= j < AUTOMIX_MAX_CHANNELS ==> channels@[j] == self.channels@[j],
            decreases n - i,
        {
            let mut channel: Channel = channels[i];
            channel.raw_gain = if channel.params.bypassed {
                TargetGain::Bypassed
            } else if self.participating[i] {
                match result.gains[i] {
                    GainShare::Zero => TargetGain::Silent,
                    GainShare::Proportional => TargetGain::Shared,
                    GainShare::Unity => TargetGain::Held,
                }
            } else {
                TargetGain::Silent
            };
            channels[i] = channel;
            i += 1;
        }
        self.channels = channels;
        self.nom_atten.update(result.nom);
        self.nom_count = result.nom;
        proof {
            let expected = old(self)@.after_sharing(signal_present);
            assert forall|j: int| 0 <= j < AUTOMIX_MAX_CHANNELS implies self@.channels[j]
                == expected.channels[j] by {
                assert(result.gains[j] == old(self)@.share_of(signal_present, j));
            }
            assert(self@.channels =~= expected.channels);
        }
        result
    }

    /// Last step of a block: count the processed samples and close the
    /// block. The counter stops at the top of its range. Without a block in
    /// progress nothing changes.
    pub fn end_block(&mut self)
        ensures
            final(self)@.wf(),
            final(self)@ == old(self)@.after_end(),
    {
        proof {
            use_type_invariant(&*self);
        }
        if let Some(block) = self.block {
            self.sample_counter = if block.samples as u64 <= u64::MAX - self.sample_counter {
                self.sample_counter + block.samples as u64
            } else {
                u64::MAX
            };
            self.block = None;
        }
    }

    /// Mute or unmute a channel. A channel that the engine does not have is
    /// passed over in silence.
    pub fn set_channel_mute(&mut self, channel: usize, muted: bool)
        ensures
            final(self)@.wf(),
            final(self)@ == old(self)@.with_params(
                channel as nat,
                ChannelParams { muted, ..old(self)@.channels[channel as int].params },
            ),
    {
        proof {
            use_type_invariant(&*self);
        }
        if channel < self.num_channels {
            let mut changed: Channel = self.channels[channel];
            changed.params.muted = muted;
            self.channels[channel] = changed;
        }
    }

    /// Solo or unsolo a channel. A channel that the engine does not have is
    /// passed over in silence.
    pub fn set_channel_solo(&mut self, channel: usize, soloed: bool)
        ensures
            final(self)@.wf(),
            final(self)@ == old(self)@.with_params(
                channel as nat,
                ChannelParams { soloed, ..old(self)@.channels[channel as int].params },
            ),
    {
        proof {
            use_type_invariant(&*self);
        }
        if channel < self.num_channels {
            let mut changed: Channel = self.channels[channel];
            changed.params.soloed = soloed;
            self.channels[channel] = changed;
        }
    }

    /// Bypass a channel or take it back into the mix. A channel that the
    /// engine does not have is passed over in silence.
    pub fn set_channel_bypass(&mut self, channel: usize, bypassed: bool)
        ensures
            final(self)@.wf(),
            final(self)@ == old(self)@.with_params(
                channel as nat,
                ChannelParams { bypassed, ..old(self)@.channels[channel as int].params },
            ),
    {
        proof {
            use_type_invariant(&*self);
        }
        if channel < self.num_channels {
            let mut changed: Channel = self.channels[channel];
            changed.params.bypassed = bypassed;
            self.channels[channel] = changed;
        }
    }

    /// Switch the bypass of the whole engine. It takes effect with the next
    /// block that is begun.
    pub fn set_global_bypass(&mut self, bypass: bool)
        ensures
            final(self)@.wf(),
            final(self)@ == (EngineState { global_bypass: bypass, ..old(self)@ }),
    {
        proof {
            use_type_invariant(&*self);
        }
        self.global_bypass = bypass;
    }

    /// Set the hold time in milliseconds, held to the longest hold time;
    /// the hold duration in samples follows from the engine's sample rate.
    pub fn set_hold_time_ms(&mut self, ms: u64)
        ensures
            final(self)@.wf(),
            final(self)@ == (EngineState {
                hold: HoldState {
                    duration: samples_in_u64(
                        if ms <= MAX_HOLD_TIME_MS {
                            ms as nat
                        } else {
                            MAX_HOLD_TIME_MS as nat
                        },
                        old(self)@.sample_rate,
                    ),
                    ..old(self)@.hold
                },
                ..old(self)@
            }),
    {
        proof {
            use_type_invariant(&*self);
        }
        let ms: u64 = if ms <= MAX_HOLD_TIME_MS {
            ms
        } else {
            MAX_HOLD_TIME_MS
        };
        let sample_rate: u64 = self.sample_rate;
        self.last_mic_hold.set_hold_time_ms(ms, sample_rate);
    }

    /// Set the hold duration in samples, for a caller that has derived it
    /// from a hold time of its own.
    pub fn set_hold_samples(&mut self, samples: u64)
        ensures
            final(self)@.wf(),
            final(self)@ == (EngineState {
                hold: HoldState { duration: samples as nat, ..old(self)@.hold },
                ..old(self)@
            }),
    {
        proof {
            use_type_invariant(&*self);
        }
        self.last_mic_hold.set_hold_samples(samples);
    }

    /// Switch the attenuation for the number of open microphones on or
    /// off. Switching it off puts unity attenuation in force at once.
    pub fn set_nom_atten_enabled(&mut self, enabled: bool)
        ensures
            final(self)@.wf(),
            final(self)@ == (EngineState {
                nom: NomState {
                    nom: old(self)@.nom.nom,
                    attenuating_nom: if enabled {
                        old(self)@.nom.attenuating_nom
                    } else {
                        1
                    },
                    enabled,
                },
                ..old(self)@
            }),
    {
        proof {
            use_type_invariant(&*self);
        }
        self.nom_atten.set_enabled(enabled);
    }

    /// The state of a channel, or `None` for a channel that the engine does
    /// not have.
    pub fn channel(&self, channel: usize) -> (state: Option<Channel>)
        ensures
            self@.wf(),
            state == if channel < self@.num_channels {
                Some(self@.channels[channel as int])
            } else {
                None
            },
    {
        proof {
            use_type_invariant(self);
        }
        if channel < self.num_channels {
            Some(self.channels[channel])
        } else {
            None
        }
    }

    /// Whether a channel took part in the block last begun; `false` for a
    /// channel that the engine does not have.
    pub fn is_participating(&self, channel: usize) -> (participating: bool)
        ensures
            self@.wf(),
            participating == (channel < self@.num_channels && self@.participating[channel as int]),
    {
        proof {
            use_type_invariant(self);
        }
        channel < self.num_channels && self.participating[channel]
    }

    /// The block in progress, if any.
    pub fn block(&self) -> (block: Option<Block>)
        ensures
            self@.wf(),
            block == self@.block,
    {
        proof {
            use_type_invariant(self);
        }
        self.block
    }

    /// The attenuation for the number of open microphones.
    pub fn nom_atten(&self) -> (atten: NomAttenuation)
        ensures
            atten@ == self@.nom,
    {
        self.nom_atten
    }

    /// The number of open microphones that the last block reported; it is
    /// one while a channel is held through silence.
    pub fn nom_count(&self) -> (count: usize)
        ensures
            count == self@.nom_count,
    {
        self.nom_count
    }

    /// Whether the last block held a channel open through silence.
    pub fn is_holding(&self) -> (holding: bool)
        ensures
            holding == self@.hold.holding,
    {
        self.last_mic_hold.is_holding()
    }

    /// The hold duration in samples.
    pub fn hold_samples(&self) -> (samples: u64)
        ensures
            samples == self@.hold.duration,
    {
        self.last_mic_hold.hold_samples()
    }

    /// Whether the whole engine is bypassed.
    pub fn global_bypass(&self) -> (bypass: bool)
        ensures
            bypass == self@.global_bypass,
    {
        self.global_bypass
    }

    /// Samples processed over the engine's lifetime.
    pub fn sample_counter(&self) -> (samples: u64)
        ensures
            samples == self@.sample_counter,
    {
        self.sample_counter
    }

    /// The sample rate in hertz.
    pub fn sample_rate(&self) -> (sample_rate: u64)
        ensures
            sample_rate == self@.sample_rate,
    {
        self.sample_rate
    }

    /// The configured number of channels.
    pub fn num_channels(&self) -> (num_channels: usize)
        ensures
            self@.wf(),
            num_channels == self@.num_channels,
    {
        proof {
            use_type_invariant(self);
        }
        self.num_channels
    }
}

/// Two states of one engine with the same configuration, the second well
/// formed: the number of channels, the sample rate, the bypass, the hold
/// duration, the attenuation switch and every channel's index and switches
/// agree.
pub open spec fn same_configuration(before: EngineState, after: EngineState) -> bool {
    &&& after.wf()
    &&& after.num_channels == before.num_channels
    &&& after.sample_rate == before.sample_rate
    &&& after.global_bypass == before.global_bypass
    &&& after.hold.duration == before.hold.duration
    &&& after.nom.enabled == before.nom.enabled
    &&& forall|i: int|
        0 <= i < AUTOMIX_MAX_CHANNELS ==> {
            &&& (#[trigger] after.channels[i]).index == before.channels[i].index
            &&& after.channels[i].params == before.channels[i].params
        }
}

/// The state after a whole block, given what the caller measured: which
/// channels are above their noise floor, and whether the open microphones
/// carry signal.
pub open spec fn after_block(
    s: EngineState,
    requested: nat,
    num_samples: nat,
    above_floor: Seq<bool>,
    signal_present: bool,
) -> EngineState {
    s.after_begin(requested, num_samples).after_activity(above_floor).0.after_sharing(
        signal_present,
    ).after_end()
}

/// Every step of a block keeps the state well formed and leaves the
/// configuration alone.
pub proof fn lemma_steps_keep_configuration(
    s: EngineState,
    requested: nat,
    num_samples: nat,
    above_floor: Seq<bool>,
    signal_present: bool,
)
    requires
        s.wf(),
    ensures
        same_configuration(s, s.after_begin(requested, num_samples)),
        same_configuration(s, s.after_activity(above_floor).0),
        same_configuration(s, s.after_sharing(signal_present)),
        same_configuration(s, s.after_end()),
        same_configuration(s, after_block(s, requested, num_samples, above_floor, signal_present)),
{
    if s.block is Some {
        lemma_hold_step_keeps_wf(
            s.hold,
            s.activity(above_floor),
            s.participating,
            s.block.unwrap().channels as nat,
            s.block.unwrap().samples as nat,
        );
    }
    let begun = s.after_begin(requested, num_samples);
    if begun.block is Some {
        lemma_hold_step_keeps_wf(
            begun.hold,
            begun.activity(above_floor),
            begun.participating,
            begun.block.unwrap().channels as nat,
            begun.block.unwrap().samples as nat,
        );
    }
}

/// A block with no channel or no sample to process, and any block while
/// the engine is bypassed, is a no-op: begun on an engine with no block in
/// progress, no step of it changes the state, and no channel is held.
pub proof fn lemma_skipped_block_changes_nothing(
    s: EngineState,
    requested: nat,
    num_samples: nat,
    above_floor: Seq<bool>,
    signal_present: bool,
)
    requires
        s.block is None,
        requested == 0 || s.num_channels == 0 || num_samples == 0 || s.global_bypass,
    ensures
        s.after_begin(requested, num_samples) == s,
        s.after_activity(above_floor) == (s, None::<usize>),
        s.after_sharing(signal_present) == s,
        s.after_end() == s,
        after_block(s, requested, num_samples, above_floor, signal_present) == s,
{
}

/// A block that is processed counts its samples, up to the ceiling for a
/// single call, and leaves no block in progress.
pub proof fn lemma_block_counts_samples(
    s: EngineState,
    requested: nat,
    num_samples: nat,
    above_floor: Seq<bool>,
    signal_present: bool,
)
    requires
        s.wf(),
        !s.skips(requested, num_samples),
    ensures
        ({
            let done = after_block(s, requested, num_samples, above_floor, signal_present);
            &&& done.block is None
            &&& done.sample_counter == advance_samples(s.sample_counter, block_samples(num_samples))
            &&& done.sample_counter >= s.sample_counter
        }),
{
}

/// Where the target gain of a processed channel comes from, by its
/// switches: a bypassed channel is at unity at once; a muted channel, and
/// one shut out by another channel's solo, gets nothing; any other channel
/// gets its share of the mix where it is above its floor while there is
/// signal, is held at unity only in silence and only as the held channel,
/// and gets nothing otherwise. Channels past the processed ones keep their
/// state.
pub proof fn lemma_target_gain_by_switches(
    s: EngineState,
    requested: nat,
    num_samples: nat,
    above_floor: Seq<bool>,
    signal_present: bool,
    i: int,
)
    requires
        s.wf(),
        !s.skips(requested, num_samples),
        above_floor.len() == AUTOMIX_MAX_CHANNELS,
        0 <= i < AUTOMIX_MAX_CHANNELS,
    ensures
        ({
            let n = s.block_channels(requested);
            let params = s.channels[i].params;
            let takes_part = params.participates(s.any_solo(n));
            let held = s.after_begin(requested, num_samples).after_activity(above_floor).1;
            let done = after_block(s, requested, num_samples, above_floor, signal_present);
            let target = done.channels[i].raw_gain;
            &&& i >= n ==> done.channels[i] == s.channels[i]
            &&& i < n ==> {
                &&& done.participating[i] == takes_part
                &&& done.is_active[i] == (takes_part && above_floor[i])
                &&& done.channels[i].is_active == done.is_active[i]
                &&& params.bypassed ==> target == TargetGain::Bypassed
                &&& !params.bypassed && !takes_part ==> target == TargetGain::Silent
                &&& takes_part && signal_present ==> target == if above_floor[i] {
                    TargetGain::Shared
                } else {
                    TargetGain::Silent
                }
                &&& takes_part && !signal_present ==> target == if held == Some(i as usize) {
                    TargetGain::Held
                } else {
                    TargetGain::Silent
                }
            }
        }),
{
    let n = s.block_channels(requested);
    let begun = s.after_begin(requested, num_samples);
    let (measured, held) = begun.after_activity(above_floor);
    lemma_steps_keep_configuration(s, requested, num_samples, above_floor, signal_present);
    lemma_steps_keep_configuration(begun, requested, num_samples, above_floor, signal_present);
    lemma_held_channel(
        begun.hold,
        begun.activity(above_floor),
        begun.participating,
        n,
        block_samples(num_samples),
    );
    assert(begun.any_solo(n) == s.any_solo(n));
    assert(measured.held_channel() == held);
}

/// A channel is held at unity only when no processed channel is an open
/// microphone, and at most one channel is.
pub proof fn lemma_hold_only_in_silence(
    s: EngineState,
    requested: nat,
    num_samples: nat,
    above_floor: Seq<bool>,
    signal_present: bool,
    i: int,
    j: int,
)
    requires
        s.wf(),
        !s.skips(requested, num_samples),
        0 <= i < s.block_channels(requested),
        0 <= j < s.block_channels(requested),
        after_block(s, requested, num_samples, above_floor, signal_present).channels[i].raw_gain
            == TargetGain::Held,
    ensures
        ({
            let done = after_block(s, requested, num_samples, above_floor, signal_present);
            &&& !signal_present
            &&& !done.is_active[j]
            &&& done.channels[j].raw_gain == TargetGain::Held ==> i == j
            &&& done.channels[j].raw_gain != TargetGain::Shared
            &&& done.nom_count == 1
            &&& done.hold.holding
        }),
{
    let n = s.block_channels(requested);
    let begun = s.after_begin(requested, num_samples);
    let (measured, held) = begun.after_activity(above_floor);
    lemma_steps_keep_configuration(s, requested, num_samples, above_floor, signal_present);
    lemma_steps_keep_configuration(begun, requested, num_samples, above_floor, signal_present);
    lemma_held_channel(
        begun.hold,
        begun.activity(above_floor),
        begun.participating,
        n,
        block_samples(num_samples),
    );
    assert(measured.held_channel() == held);
    assert(!is_open(measured.is_active, measured.participating, n, j));
}

/// The number of open microphones that a block reports is at most the
/// number of processed channels, and the attenuation in force after it is
/// exactly unity where that number is at most one or attenuation is off.
pub proof fn lemma_block_attenuation(
    s: EngineState,
    requested: nat,
    num_samples: nat,
    above_floor: Seq<bool>,
    signal_present: bool,
)
    requires
        s.wf(),
        !s.skips(requested, num_samples),
    ensures
        ({
            let done = after_block(s, requested, num_samples, above_floor, signal_present);
            &&& done.nom_count <= s.block_channels(requested)
            &&& done.nom.nom == done.nom_count
            &&& done.nom.attenuating_nom == attenuating_count(s.nom.enabled, done.nom_count)
            &&& done.nom_count <= 1 || !s.nom.enabled ==> done.nom.attenuating_nom == 1
        }),
{
    let measured = s.after_begin(requested, num_samples).after_activity(above_floor).0;
    lemma_gain_needs_participation(
        measured.is_active,
        measured.participating,
        s.block_channels(requested),
        measured.held_channel(),
        signal_present,
        0,
    );
}

} // verus!
