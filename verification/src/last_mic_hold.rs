//! Last-microphone hold: after every microphone has fallen silent, the one
//! that was open last stays pinned at unity gain for a bounded time.
use vstd::prelude::*;
use crate::constants::{AUTOMIX_MAX_CHANNELS, DEFAULT_HOLD_TIME_MS};
use crate::math_utils::{ms_to_samples, samples_in_u64};
use crate::open_mics::{
    all_silent, channels_in_use, is_open, last_open, lemma_last_open_is_highest,
};

verus! {

/// What a `LastMicHold` remembers, as plain mathematical values.
pub struct HoldState {
    /// The channel that was open last, if one is remembered.
    pub last_active: Option<usize>,
    /// Samples of silence counted since a microphone was last open.
    pub counter: nat,
    /// Length of the hold in samples; zero switches the hold off.
    pub duration: nat,
    /// Whether the last update pinned a channel.
    pub holding: bool,
}

impl HoldState {
    /// The state of a real hold: both counts fit in 64 bits, and a
    /// remembered channel is one of the engine's channels.
    pub open spec fn wf(self) -> bool {
        &&& self.counter <= u64::MAX
        &&& self.duration <= u64::MAX
        &&& self.last_active is Some ==> self.last_active.unwrap() < AUTOMIX_MAX_CHANNELS
    }
}

/// Advancing the silence counter by one block; the counter stops at the top
/// of its range.
pub open spec fn advance_counter(counter: nat, block_size: nat) -> nat {
    if counter + block_size <= u64::MAX {
        counter + block_size
    } else {
        u64::MAX as nat
    }
}

/// One update of the hold: the state after the block and the channel to pin
/// at unity gain during it, if any.
///
/// While a microphone is open, the highest-index open microphone is
/// remembered, the silence counter restarts and nothing is pinned. In
/// silence a hold of zero length pins nothing, a remembered channel that no
/// longer takes part is forgotten, and otherwise the remembered channel is
/// pinned as long as the silence, this block counted, is shorter than the
/// hold.
pub open spec fn hold_step(
    s: HoldState,
    is_active: Seq<bool>,
    participating: Seq<bool>,
    num_channels: nat,
    block_size: nat,
) -> (HoldState, Option<usize>) {
    let found = last_open(is_active, participating, channels_in_use(num_channels));
    if found is Some {
        (HoldState { last_active: found, counter: 0, holding: false, ..s }, None)
    } else if s.duration == 0 {
        (HoldState { holding: false, ..s }, None)
    } else if s.last_active is None {
        (HoldState { holding: false, ..s }, None)
    } else if !participating[s.last_active.unwrap() as int] {
        (HoldState { last_active: None, holding: false, ..s }, None)
    } else {
        let counter = advance_counter(s.counter, block_size);
        if counter < s.duration {
            (HoldState { counter, holding: true, ..s }, s.last_active)
        } else {
            (HoldState { counter, holding: false, ..s }, None)
        }
    }
}

/// Tracks the last active microphone channel and holds it open for a
/// configurable duration after all channels go silent.
pub struct LastMicHold {
    last_active_channel: Option<usize>,
    hold_counter: u64,
    hold_duration: u64,
    is_holding: bool,
}

impl View for LastMicHold {
    type V = HoldState;

    closed spec fn view(&self) -> HoldState {
        HoldState {
            last_active: self.last_active_channel,
            counter: self.hold_counter as nat,
            duration: self.hold_duration as nat,
            holding: self.is_holding,
        }
    }
}

impl LastMicHold {
    /// A remembered channel is always one of the engine's channels.
    #[verifier::type_invariant]
    closed spec fn remembered_in_range(&self) -> bool {
        self.last_active_channel is Some ==> self.last_active_channel.unwrap()
            < AUTOMIX_MAX_CHANNELS
    }

    /// A hold with the default hold time at the given sample rate in hertz.
    pub fn new(sample_rate: u64) -> (hold: Self)
        ensures
            hold@.wf(),
            hold@ == (HoldState {
                last_active: None,
                counter: 0,
                duration: samples_in_u64(DEFAULT_HOLD_TIME_MS as nat, sample_rate as nat),
                holding: false,
            }),
    {
        LastMicHold {
            last_active_channel: None,
            hold_counter: 0,
            hold_duration: ms_to_samples(DEFAULT_HOLD_TIME_MS, sample_rate),
            is_holding: false,
        }
    }

    /// Update the hold state given the activity and participation flags of
    /// the first `num_channels` channels and the length of the block.
    ///
    /// Returns the channel index to hold at unity gain, if any. A channel
    /// count above the engine's ceiling is held to it.
    pub fn update(
        &mut self,
        is_active: &[bool; AUTOMIX_MAX_CHANNELS],
        participating: &[bool; AUTOMIX_MAX_CHANNELS],
        num_channels: usize,
        block_size: usize,
    ) -> (held: Option<usize>)
        ensures
            final(self)@.wf(),
            (final(self)@, held) == hold_step(
                old(self)@,
                is_active@,
                participating@,
                num_channels as nat,
                block_size as nat,
            ),
        no_unwind
    {
        proof {
            use_type_invariant(&*self);
        }
        let n: usize = if num_channels <= AUTOMIX_MAX_CHANNELS {
            num_channels
        } else {
            AUTOMIX_MAX_CHANNELS
        };
        let mut last_found: Option<usize> = None;
        let mut i: usize = 0;
        while i < n
            invariant
                i <= n <= AUTOMIX_MAX_CHANNELS,
                last_found == last_open(is_active@, participating@, i as nat),
                last_found is Some ==> last_found.unwrap() < i,
            decreases n - i,
        {
            if participating[i] && is_active[i] {
                last_found = Some(i);
            }
            i += 1;
        }

        if let Some(found) = last_found {
            self.last_active_channel = Some(found);
            self.hold_counter = 0;
            self.is_holding = false;
            None
        } else if self.hold_duration == 0 {
            self.is_holding = false;
            None
        } else if let Some(ch) = self.last_active_channel {
            if !participating[ch] {
                self.is_holding = false;
                self.last_active_channel = None;
                return None;
            }
            self.hold_counter = if block_size as u64 <= u64::MAX - self.hold_counter {
                self.hold_counter + block_size as u64
            } else {
                u64::MAX
            };
            if self.hold_counter < self.hold_duration {
                self.is_holding = true;
                Some(ch)
            } else {
                self.is_holding = false;
                None
            }
        } else {
            self.is_holding = false;
            None
        }
    }

    /// Set the hold duration from a time in milliseconds and a sample rate
    /// in hertz. What is remembered and counted stays as it is.
    pub fn set_hold_time_ms(&mut self, ms: u64, sample_rate: u64)
        ensures
            final(self)@.wf(),
            final(self)@ == (HoldState {
                duration: samples_in_u64(ms as nat, sample_rate as nat),
                ..old(self)@
            }),
        no_unwind
    {
        proof {
            use_type_invariant(&*self);
        }
        self.hold_duration = ms_to_samples(ms, sample_rate);
    }

    /// Set the hold duration in samples. What is remembered and counted
    /// stays as it is.
    pub fn set_hold_samples(&mut self, samples: u64)
        ensures
            final(self)@.wf(),
            final(self)@ == (HoldState { duration: samples as nat, ..old(self)@ }),
        no_unwind
    {
        proof {
            use_type_invariant(&*self);
        }
        self.hold_duration = samples;
    }

    /// Reset the hold state. The hold duration stays as it is.
    pub fn reset(&mut self)
        ensures
            final(self)@.wf(),
            final(self)@ == (HoldState {
                last_active: None,
                counter: 0,
                duration: old(self)@.duration,
                holding: false,
            }),
        no_unwind
    {
        self.last_active_channel = None;
        self.hold_counter = 0;
        self.is_holding = false;
    }

    /// Whether the last update pinned a channel.
    pub fn is_holding(&self) -> (holding: bool)
        ensures
            self@.wf(),
            holding == self@.holding,
    {
        proof {
            use_type_invariant(self);
        }
        self.is_holding
    }

    /// The hold duration in samples.
    pub fn hold_samples(&self) -> (samples: u64)
        ensures
            self@.wf(),
            samples == self@.duration,
    {
        proof {
            use_type_invariant(self);
        }
        self.hold_duration
    }

    /// The channel that was open last, if one is remembered.
    pub fn last_active_channel(&self) -> (channel: Option<usize>)
        ensures
            self@.wf(),
            channel == self@.last_active,
    {
        proof {
            use_type_invariant(self);
        }
        self.last_active_channel
    }
}

/// An update keeps the state of a hold well formed.
pub proof fn lemma_hold_step_keeps_wf(
    s: HoldState,
    is_active: Seq<bool>,
    participating: Seq<bool>,
    num_channels: nat,
    block_size: nat,
)
    requires
        s.wf(),
    ensures
        hold_step(s, is_active, participating, num_channels, block_size).0.wf(),
        hold_step(s, is_active, participating, num_channels, block_size).0.duration == s.duration,
{
    lemma_last_open_is_highest(is_active, participating, channels_in_use(num_channels));
}

/// A hold of zero length never pins a channel, and stays of zero length.
pub proof fn lemma_zero_hold_never_fires(
    s: HoldState,
    is_active: Seq<bool>,
    participating: Seq<bool>,
    num_channels: nat,
    block_size: nat,
)
    requires
        s.duration == 0,
    ensures
        hold_step(s, is_active, participating, num_channels, block_size).1 is None,
        !hold_step(s, is_active, participating, num_channels, block_size).0.holding,
        hold_step(s, is_active, participating, num_channels, block_size).0.duration == 0,
{
}

/// While a microphone is open nothing is pinned: the highest-index open
/// microphone is remembered and the silence counter starts anew.
pub proof fn lemma_open_mic_is_remembered(
    s: HoldState,
    is_active: Seq<bool>,
    participating: Seq<bool>,
    num_channels: nat,
    block_size: nat,
)
    requires
        !all_silent(is_active, participating, channels_in_use(num_channels)),
    ensures
        ({
            let n = channels_in_use(num_channels);
            let (next, held) = hold_step(s, is_active, participating, num_channels, block_size);
            &&& held is None
            &&& !next.holding
            &&& next.counter == 0
            &&& next.duration == s.duration
            &&& next.last_active is Some
            &&& is_open(is_active, participating, n, next.last_active.unwrap() as int)
            &&& forall|j: int|
                next.last_active.unwrap() < j ==> !is_open(is_active, participating, n, j)
        }),
{
    lemma_last_open_is_highest(is_active, participating, channels_in_use(num_channels));
}

/// A channel is pinned only in silence, only while the hold has not run
/// out, and it is the remembered channel, which still takes part. The
/// holding flag says exactly whether a channel was pinned.
pub proof fn lemma_held_channel(
    s: HoldState,
    is_active: Seq<bool>,
    participating: Seq<bool>,
    num_channels: nat,
    block_size: nat,
)
    requires
        s.wf(),
        participating.len() == AUTOMIX_MAX_CHANNELS,
    ensures
        ({
            let n = channels_in_use(num_channels);
            let (next, held) = hold_step(s, is_active, participating, num_channels, block_size);
            &&& next.wf()
            &&& next.holding <==> held is Some
            &&& held is Some ==> {
                &&& all_silent(is_active, participating, n)
                &&& s.last_active == held
                &&& next.last_active == held
                &&& participating[held.unwrap() as int]
                &&& s.counter + block_size < s.duration
                &&& next.counter == s.counter + block_size
            }
        }),
{
    lemma_last_open_is_highest(is_active, participating, channels_in_use(num_channels));
}

/// Silence only lets the counter grow, and a hold that has run out stays
/// off until a microphone opens again.
pub proof fn lemma_expired_hold_stays_off(
    s: HoldState,
    is_active: Seq<bool>,
    participating: Seq<bool>,
    num_channels: nat,
    block_size: nat,
)
    requires
        s.wf(),
        all_silent(is_active, participating, channels_in_use(num_channels)),
    ensures
        ({
            let (next, held) = hold_step(s, is_active, participating, num_channels, block_size);
            &&& next.duration == s.duration
            &&& next.counter >= s.counter
            &&& s.counter + block_size >= s.duration ==> held is None
            &&& s.counter >= s.duration ==> next.counter >= next.duration
        }),
{
    lemma_last_open_is_highest(is_active, participating, channels_in_use(num_channels));
}

/// The samples of a run of blocks, all together.
pub open spec fn total_samples(blocks: Seq<nat>) -> nat
    decreases blocks.len(),
{
    if blocks.len() == 0 {
        0
    } else {
        total_samples(blocks.drop_last()) + blocks.last()
    }
}

/// The state of the hold after a run of blocks with the same flags, one
/// update for each block size in `blocks`.
pub open spec fn after_blocks(
    s: HoldState,
    is_active: Seq<bool>,
    participating: Seq<bool>,
    num_channels: nat,
    blocks: Seq<nat>,
) -> HoldState
    decreases blocks.len(),
{
    if blocks.len() == 0 {
        s
    } else {
        hold_step(
            after_blocks(s, is_active, participating, num_channels, blocks.drop_last()),
            is_active,
            participating,
            num_channels,
            blocks.last(),
        ).0
    }
}

/// The hold lasts exactly as long as its duration: through a run of silent
/// blocks the remembered channel, as long as it takes part, is pinned by
/// every update up to which the silence counted so far is shorter than the
/// hold, and by none after that.
pub proof fn lemma_hold_lasts_for_its_duration(
    s: HoldState,
    is_active: Seq<bool>,
    participating: Seq<bool>,
    num_channels: nat,
    blocks: Seq<nat>,
)
    requires
        s.wf(),
        participating.len() == AUTOMIX_MAX_CHANNELS,
        s.last_active is Some,
        participating[s.last_active.unwrap() as int],
        all_silent(is_active, participating, channels_in_use(num_channels)),
        blocks.len() > 0,
    ensures
        ({
            let before = after_blocks(
                s,
                is_active,
                participating,
                num_channels,
                blocks.drop_last(),
            );
            let held = hold_step(before, is_active, participating, num_channels, blocks.last()).1;
            held == if s.counter + total_samples(blocks) < s.duration {
                s.last_active
            } else {
                None
            }
        }),
{
    lemma_silent_run(s, is_active, participating, num_channels, blocks.drop_last());
    lemma_last_open_is_highest(is_active, participating, channels_in_use(num_channels));
}

/// Through a run of silent blocks the remembered channel stays remembered
/// as long as it takes part, and the counter adds up the samples.
proof fn lemma_silent_run(
    s: HoldState,
    is_active: Seq<bool>,
    participating: Seq<bool>,
    num_channels: nat,
    blocks: Seq<nat>,
)
    requires
        s.wf(),
        participating.len() == AUTOMIX_MAX_CHANNELS,
        s.last_active is Some,
        participating[s.last_active.unwrap() as int],
        all_silent(is_active, participating, channels_in_use(num_channels)),
    ensures
        ({
            let after = after_blocks(s, is_active, participating, num_channels, blocks);
            &&& after.wf()
            &&& after.duration == s.duration
            &&& after.last_active == s.last_active
            &&& s.duration > 0 ==> after.counter == advance_counter(
                s.counter,
                total_samples(blocks),
            )
            &&& s.duration == 0 ==> after.counter == s.counter
        }),
    decreases blocks.len(),
{
    lemma_last_open_is_highest(is_active, participating, channels_in_use(num_channels));
    if blocks.len() > 0 {
        lemma_silent_run(s, is_active, participating, num_channels, blocks.drop_last());
    }
}

} // verus!
