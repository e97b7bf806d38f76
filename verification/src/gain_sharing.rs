//! Dugan gain sharing: which channels share the unit of gain in a block, and
//! how many microphones count as open.
//!
//! The levels themselves are real numbers and stay with the caller. What is
//! decided here is the shape of the result: every channel gets no gain, its
//! proportional share of the summed weighted level, or unity gain. What
//! these shares amount to is stated, and proved, in exact arithmetic: they
//! add up to one, each lies between zero and one, and the louder of two
//! equally weighted microphones gets more.
use vstd::prelude::*;
use crate::constants::AUTOMIX_MAX_CHANNELS;
use crate::open_mics::{
    all_silent, channels_in_use, count_open, is_open, lemma_count_open_bounds,
};

verus! {

/// The gain that gain sharing gives to one channel.
#[derive(Clone, Copy, PartialEq, Eq, Debug, Structural)]
pub enum GainShare {
    /// No gain: the channel is not an open microphone.
    Zero,
    /// The channel's weighted level divided by the sum of the weighted
    /// levels of all open microphones.
    Proportional,
    /// Unity gain: the channel is held open through silence.
    Unity,
}

/// Result of a Dugan gain-sharing computation.
#[derive(Clone, Copy, Debug)]
pub struct GainSharingResult {
    /// Per-channel gains; channels that are not in use get `Zero`.
    pub gains: [GainShare; AUTOMIX_MAX_CHANNELS],
    /// Number of open microphones.
    pub nom: usize,
}

/// The held channel is one of the first `n` channels and takes part.
pub open spec fn hold_applies(
    participating: Seq<bool>,
    n: nat,
    last_mic_channel: Option<usize>,
) -> bool {
    &&& last_mic_channel is Some
    &&& last_mic_channel.unwrap() < n
    &&& participating[last_mic_channel.unwrap() as int]
}

/// The gain of channel `i` among the first `n` channels.
///
/// With signal present every open microphone gets its proportional share
/// and every other channel nothing. In silence the held channel, if the
/// hold applies, gets unity gain and every other channel nothing.
pub open spec fn gain_share(
    is_active: Seq<bool>,
    participating: Seq<bool>,
    n: nat,
    last_mic_channel: Option<usize>,
    signal_present: bool,
    i: int,
) -> GainShare {
    if signal_present {
        if is_open(is_active, participating, n, i) {
            GainShare::Proportional
        } else {
            GainShare::Zero
        }
    } else if hold_applies(participating, n, last_mic_channel) && last_mic_channel.unwrap() == i {
        GainShare::Unity
    } else {
        GainShare::Zero
    }
}

/// The number of open microphones among the first `n` channels: those that
/// take part and are active, or one where a channel is held through silence.
pub open spec fn open_mic_count(
    is_active: Seq<bool>,
    participating: Seq<bool>,
    n: nat,
    last_mic_channel: Option<usize>,
    signal_present: bool,
) -> nat {
    if !signal_present && hold_applies(participating, n, last_mic_channel) {
        1
    } else {
        count_open(is_active, participating, n)
    }
}

/// `result` is what gain sharing gives for the first `num_channels`
/// channels, a count above the engine's ceiling held to it: every gain is
/// the channel's share, and the count is the number of open microphones.
pub open spec fn is_gain_sharing_result(
    result: GainSharingResult,
    is_active: Seq<bool>,
    participating: Seq<bool>,
    num_channels: nat,
    last_mic_channel: Option<usize>,
    signal_present: bool,
) -> bool {
    &&& forall|i: int|
        0 <= i < AUTOMIX_MAX_CHANNELS ==> #[trigger] result.gains[i] == gain_share(
            is_active,
            participating,
            channels_in_use(num_channels),
            last_mic_channel,
            signal_present,
            i,
        )
    &&& result.nom == open_mic_count(
        is_active,
        participating,
        channels_in_use(num_channels),
        last_mic_channel,
        signal_present,
    )
}

/// Whether channel `channel` is an open microphone among the first
/// `num_channels` channels: it takes part and is active. A channel count
/// above the engine's ceiling is held to it.
pub fn is_open_mic(
    is_active: &[bool; AUTOMIX_MAX_CHANNELS],
    participating: &[bool; AUTOMIX_MAX_CHANNELS],
    num_channels: usize,
    channel: usize,
) -> (open: bool)
    ensures
        open == is_open(
            is_active@,
            participating@,
            channels_in_use(num_channels as nat),
            channel as int,
        ),
    no_unwind
{
    channel < num_channels && channel < AUTOMIX_MAX_CHANNELS && participating[channel]
        && is_active[channel]
}

/// Compute the Dugan gain-sharing result for one block.
///
/// - `is_active`: whether each channel is above its noise floor.
/// - `participating`: whether each channel takes part in gain sharing.
/// - `num_channels`: number of channels in use; a count above the engine's
///   ceiling is held to it.
/// - `last_mic_channel`: channel to hold at unity when all is silent.
/// - `signal_present`: whether the summed weighted level of the open
///   microphones is above the silence threshold.
pub fn compute_dugan_gains(
    is_active: &[bool; AUTOMIX_MAX_CHANNELS],
    participating: &[bool; AUTOMIX_MAX_CHANNELS],
    num_channels: usize,
    last_mic_channel: Option<usize>,
    signal_present: bool,
) -> (result: GainSharingResult)
    ensures
        is_gain_sharing_result(
            result,
            is_active@,
            participating@,
            num_channels as nat,
            last_mic_channel,
            signal_present,
        ),
{
    let n: usize = if num_channels <= AUTOMIX_MAX_CHANNELS {
        num_channels
    } else {
        AUTOMIX_MAX_CHANNELS
    };
    let mut gains: [GainShare; AUTOMIX_MAX_CHANNELS] = [GainShare::Zero; AUTOMIX_MAX_CHANNELS];
    let mut nom: usize = 0;
    let mut i: usize = 0;
    while i < n
        invariant
            i <= n <= AUTOMIX_MAX_CHANNELS,
            nom == count_open(is_active@, participating@, i as nat),
            nom <= i,
            forall|j: int|
                0 <= j < i ==> #[trigger] gains[j] == gain_share(
                    is_active@,
                    participating@,
                    n as nat,
                    None,
                    signal_present,
                    j,
                ),
            forall|j: int| i <= j < AUTOMIX_MAX_CHANNELS ==> #[trigger] gains[j] == GainShare::Zero,
        decreases n - i,
    {
        if participating[i] && is_active[i] {
            if signal_present {
                gains[i] = GainShare::Proportional;
            }
            nom += 1;
        }
        i += 1;
    }
    if !signal_present {
        if let Some(ch) = last_mic_channel {
            if ch < n && participating[ch] {
                gains[ch] = GainShare::Unity;
                nom = 1;
            }
        }
    }
    GainSharingResult { gains, nom }
}

/// Gain sharing is a function of its inputs: any two results of
/// `compute_dugan_gains` for the same flags, channel count, held channel
/// and signal agree in every gain and in the count of open microphones.
pub proof fn lemma_gain_sharing_is_deterministic(
    first: GainSharingResult,
    second: GainSharingResult,
    is_active: Seq<bool>,
    participating: Seq<bool>,
    num_channels: nat,
    last_mic_channel: Option<usize>,
    signal_present: bool,
)
    requires
        is_gain_sharing_result(
            first,
            is_active,
            participating,
            num_channels,
            last_mic_channel,
            signal_present,
        ),
        is_gain_sharing_result(
            second,
            is_active,
            participating,
            num_channels,
            last_mic_channel,
            signal_present,
        ),
    ensures
        first.gains@ == second.gains@,
        first.nom == second.nom,
{
    assert(first.gains@ =~= second.gains@);
}

/// In silence every gain is zero, unless a valid hold applies: then the held
/// channel alone has unity gain and counts as the one open microphone.
pub proof fn lemma_silence_shares_nothing(
    is_active: Seq<bool>,
    participating: Seq<bool>,
    n: nat,
    last_mic_channel: Option<usize>,
    i: int,
)
    ensures
        ({
            let share = gain_share(is_active, participating, n, last_mic_channel, false, i);
            let held = hold_applies(participating, n, last_mic_channel);
            &&& !held ==> share == GainShare::Zero
            &&& held && i != last_mic_channel.unwrap() ==> share == GainShare::Zero
            &&& held && i == last_mic_channel.unwrap() ==> share == GainShare::Unity
            &&& held ==> open_mic_count(is_active, participating, n, last_mic_channel, false) == 1
        }),
{
}

/// With signal present exactly the open microphones share the gain, each in
/// proportion to its weighted level, whatever channel is held; their number
/// is the count of open microphones, which is at most the channels in use.
pub proof fn lemma_signal_is_shared_by_open_mics(
    is_active: Seq<bool>,
    participating: Seq<bool>,
    n: nat,
    last_mic_channel: Option<usize>,
    i: int,
)
    ensures
        ({
            let share = gain_share(is_active, participating, n, last_mic_channel, true, i);
            let nom = open_mic_count(is_active, participating, n, last_mic_channel, true);
            &&& share == GainShare::Proportional <==> is_open(is_active, participating, n, i)
            &&& share != GainShare::Unity
            &&& nom == count_open(is_active, participating, n)
            &&& nom <= n
            &&& nom == 0 <==> all_silent(is_active, participating, n)
        }),
{
    lemma_count_open_bounds(is_active, participating, n);
}

/// Only a channel in use that takes part ever gets gain, and the count of
/// open microphones never exceeds the channels in use.
pub proof fn lemma_gain_needs_participation(
    is_active: Seq<bool>,
    participating: Seq<bool>,
    n: nat,
    last_mic_channel: Option<usize>,
    signal_present: bool,
    i: int,
)
    ensures
        gain_share(is_active, participating, n, last_mic_channel, signal_present, i)
            != GainShare::Zero ==> 0 <= i < n && participating[i],
        open_mic_count(is_active, participating, n, last_mic_channel, signal_present) <= n,
{
    lemma_count_open_bounds(is_active, participating, n);
}

/// The summed weighted level up to which the mix counts as silent.
pub open spec fn silence_threshold() -> real {
    1real / 10_000_000_000real
}

/// The weighted level that channel `i` brings into the mix among the first
/// `n` channels: its level times its weight where it is an open microphone,
/// nothing otherwise.
pub open spec fn weighted_level(
    is_active: Seq<bool>,
    participating: Seq<bool>,
    rms_levels: Seq<real>,
    weights: Seq<real>,
    n: nat,
    i: int,
) -> real {
    if is_open(is_active, participating, n, i) {
        rms_levels[i] * weights[i]
    } else {
        0real
    }
}

/// The summed weighted level of the channels below `k`.
pub open spec fn weighted_sum(
    is_active: Seq<bool>,
    participating: Seq<bool>,
    rms_levels: Seq<real>,
    weights: Seq<real>,
    n: nat,
    k: nat,
) -> real
    decreases k,
{
    if k == 0 {
        0real
    } else {
        weighted_sum(is_active, participating, rms_levels, weights, n, (k - 1) as nat)
            + weighted_level(is_active, participating, rms_levels, weights, n, k - 1)
    }
}

/// The gain that a share stands for, in exact arithmetic, for a channel
/// with the given weighted level in a mix with the given summed level.
pub open spec fn gain_value(share: GainShare, level: real, sum: real) -> real {
    match share {
        GainShare::Zero => 0real,
        GainShare::Proportional => level / sum,
        GainShare::Unity => 1real,
    }
}

/// The gain of channel `i` in exact arithmetic, where the caller reports
/// signal exactly when the summed weighted level of the open microphones is
/// above the silence threshold.
pub open spec fn ideal_gain(
    is_active: Seq<bool>,
    participating: Seq<bool>,
    rms_levels: Seq<real>,
    weights: Seq<real>,
    n: nat,
    last_mic_channel: Option<usize>,
    i: int,
) -> real {
    let sum = weighted_sum(is_active, participating, rms_levels, weights, n, n);
    gain_value(
        gain_share(is_active, participating, n, last_mic_channel, sum > silence_threshold(), i),
        weighted_level(is_active, participating, rms_levels, weights, n, i),
        sum,
    )
}

/// The sum of the exact gains of the channels below `k`.
pub open spec fn ideal_gain_sum(
    is_active: Seq<bool>,
    participating: Seq<bool>,
    rms_levels: Seq<real>,
    weights: Seq<real>,
    n: nat,
    last_mic_channel: Option<usize>,
    k: nat,
) -> real
    decreases k,
{
    if k == 0 {
        0real
    } else {
        ideal_gain_sum(
            is_active,
            participating,
            rms_levels,
            weights,
            n,
            last_mic_channel,
            (k - 1) as nat,
        ) + ideal_gain(is_active, participating, rms_levels, weights, n, last_mic_channel, k - 1)
    }
}

/// No channel has a negative level or weight.
pub open spec fn levels_nonnegative(rms_levels: Seq<real>, weights: Seq<real>, n: nat) -> bool {
    forall|i: int| 0 <= i < n ==> rms_levels[i] >= 0real && weights[i] >= 0real
}

/// Channels past the channels in use bring nothing into the mix.
proof fn lemma_weighted_sum_stops(
    is_active: Seq<bool>,
    participating: Seq<bool>,
    rms_levels: Seq<real>,
    weights: Seq<real>,
    n: nat,
    k: nat,
)
    requires
        n <= k,
    ensures
        weighted_sum(is_active, participating, rms_levels, weights, n, k) == weighted_sum(
            is_active,
            participating,
            rms_levels,
            weights,
            n,
            n,
        ),
    decreases k,
{
    if n < k {
        lemma_weighted_sum_stops(is_active, participating, rms_levels, weights, n, (k - 1) as nat);
    }
}

/// With nothing negative, a channel's weighted level is at most the summed
/// level of any range of channels that it lies in, and no sum is negative.
proof fn lemma_level_within_sum(
    is_active: Seq<bool>,
    participating: Seq<bool>,
    rms_levels: Seq<real>,
    weights: Seq<real>,
    n: nat,
    k: nat,
    i: int,
)
    requires
        levels_nonnegative(rms_levels, weights, n),
    ensures
        weighted_sum(is_active, participating, rms_levels, weights, n, k) >= 0real,
        weighted_level(is_active, participating, rms_levels, weights, n, i) >= 0real,
        0 <= i < k ==> weighted_level(is_active, participating, rms_levels, weights, n, i)
            <= weighted_sum(is_active, participating, rms_levels, weights, n, k),
    decreases k,
{
    if is_open(is_active, participating, n, i) {
        assert(rms_levels[i] * weights[i] >= 0real) by (nonlinear_arith)
            requires
                rms_levels[i] >= 0real,
                weights[i] >= 0real,
        ;
    }
    if k > 0 {
        lemma_level_within_sum(
            is_active,
            participating,
            rms_levels,
            weights,
            n,
            (k - 1) as nat,
            i,
        );
        lemma_level_within_sum(
            is_active,
            participating,
            rms_levels,
            weights,
            n,
            (k - 1) as nat,
            k - 1,
        );
    }
}

/// With signal present the exact gains of the channels below `k` add up to
/// their summed weighted level, divided by the summed level of all.
proof fn lemma_gain_sum_with_signal(
    is_active: Seq<bool>,
    participating: Seq<bool>,
    rms_levels: Seq<real>,
    weights: Seq<real>,
    n: nat,
    last_mic_channel: Option<usize>,
    k: nat,
)
    requires
        weighted_sum(is_active, participating, rms_levels, weights, n, n) > silence_threshold(),
    ensures
        ideal_gain_sum(is_active, participating, rms_levels, weights, n, last_mic_channel, k)
            == weighted_sum(is_active, participating, rms_levels, weights, n, k) / weighted_sum(
            is_active,
            participating,
            rms_levels,
            weights,
            n,
            n,
        ),
    decreases k,
{
    let sum = weighted_sum(is_active, participating, rms_levels, weights, n, n);
    assert(sum > 0real);
    if k == 0 {
        assert(0real / sum == 0real) by (nonlinear_arith)
            requires
                sum > 0real,
        ;
    } else {
        lemma_gain_sum_with_signal(
            is_active,
            participating,
            rms_levels,
            weights,
            n,
            last_mic_channel,
            (k - 1) as nat,
        );
        let before = weighted_sum(is_active, participating, rms_levels, weights, n, (k - 1) as nat);
        let level = weighted_level(is_active, participating, rms_levels, weights, n, k - 1);
        let gain = ideal_gain(
            is_active,
            participating,
            rms_levels,
            weights,
            n,
            last_mic_channel,
            k - 1,
        );
        assert(gain == level / sum) by {
            assert(0real / sum == 0real) by (nonlinear_arith)
                requires
                    sum > 0real,
            ;
        }
        assert((before + level) / sum == before / sum + level / sum) by (nonlinear_arith)
            requires
                sum > 0real,
        ;
    }
}

/// In silence the exact gains of the channels below `k` add up to one where
/// the held channel is among them and the hold applies, and to nothing
/// otherwise.
proof fn lemma_gain_sum_in_silence(
    is_active: Seq<bool>,
    participating: Seq<bool>,
    rms_levels: Seq<real>,
    weights: Seq<real>,
    n: nat,
    last_mic_channel: Option<usize>,
    k: nat,
)
    requires
        weighted_sum(is_active, participating, rms_levels, weights, n, n) <= silence_threshold(),
    ensures
        ideal_gain_sum(is_active, participating, rms_levels, weights, n, last_mic_channel, k)
            == if hold_applies(participating, n, last_mic_channel) && last_mic_channel.unwrap()
            < k {
            1real
        } else {
            0real
        },
    decreases k,
{
    if k > 0 {
        lemma_gain_sum_in_silence(
            is_active,
            participating,
            rms_levels,
            weights,
            n,
            last_mic_channel,
            (k - 1) as nat,
        );
    }
}

/// In exact arithmetic the gains of all channels add up to exactly one
/// whenever the summed weighted level of the open microphones is above the
/// silence threshold, and also in silence where a valid hold applies. In
/// silence without a hold they add up to nothing.
pub proof fn lemma_gains_sum_to_one(
    is_active: Seq<bool>,
    participating: Seq<bool>,
    rms_levels: Seq<real>,
    weights: Seq<real>,
    n: nat,
    last_mic_channel: Option<usize>,
)
    requires
        n <= AUTOMIX_MAX_CHANNELS,
    ensures
        ({
            let sum = weighted_sum(is_active, participating, rms_levels, weights, n, n);
            let gains = ideal_gain_sum(
                is_active,
                participating,
                rms_levels,
                weights,
                n,
                last_mic_channel,
                AUTOMIX_MAX_CHANNELS as nat,
            );
            gains == if sum > silence_threshold() || hold_applies(
                participating,
                n,
                last_mic_channel,
            ) {
                1real
            } else {
                0real
            }
        }),
{
    let sum = weighted_sum(is_active, participating, rms_levels, weights, n, n);
    let all = AUTOMIX_MAX_CHANNELS as nat;
    if sum > silence_threshold() {
        lemma_gain_sum_with_signal(
            is_active,
            participating,
            rms_levels,
            weights,
            n,
            last_mic_channel,
            all,
        );
        lemma_weighted_sum_stops(is_active, participating, rms_levels, weights, n, all);
        assert(sum / sum == 1real) by (nonlinear_arith)
            requires
                sum > 0real,
        ;
    } else {
        lemma_gain_sum_in_silence(
            is_active,
            participating,
            rms_levels,
            weights,
            n,
            last_mic_channel,
            all,
        );
    }
}

/// In exact arithmetic every gain lies between zero and one, as long as no
/// level and no weight is negative.
pub proof fn lemma_gains_bounded(
    is_active: Seq<bool>,
    participating: Seq<bool>,
    rms_levels: Seq<real>,
    weights: Seq<real>,
    n: nat,
    last_mic_channel: Option<usize>,
    i: int,
)
    requires
        levels_nonnegative(rms_levels, weights, n),
    ensures
        0real <= ideal_gain(is_active, participating, rms_levels, weights, n, last_mic_channel, i)
            <= 1real,
{
    let sum = weighted_sum(is_active, participating, rms_levels, weights, n, n);
    let level = weighted_level(is_active, participating, rms_levels, weights, n, i);
    lemma_level_within_sum(is_active, participating, rms_levels, weights, n, n, i);
    if sum > silence_threshold() && is_open(is_active, participating, n, i) {
        assert(0real <= level / sum <= 1real) by (nonlinear_arith)
            requires
                0real <= level <= sum,
                sum > 0real,
        ;
    }
}

/// In exact arithmetic, of two open microphones with the same positive
/// weight the louder one gets strictly more gain while there is signal.
pub proof fn lemma_louder_gets_more_gain(
    is_active: Seq<bool>,
    participating: Seq<bool>,
    rms_levels: Seq<real>,
    weights: Seq<real>,
    n: nat,
    last_mic_channel: Option<usize>,
    a: int,
    b: int,
)
    requires
        is_open(is_active, participating, n, a),
        is_open(is_active, participating, n, b),
        weights[a] == weights[b],
        weights[a] > 0real,
        rms_levels[a] > rms_levels[b],
        weighted_sum(is_active, participating, rms_levels, weights, n, n) > silence_threshold(),
    ensures
        ideal_gain(is_active, participating, rms_levels, weights, n, last_mic_channel, a)
            > ideal_gain(is_active, participating, rms_levels, weights, n, last_mic_channel, b),
{
    let sum = weighted_sum(is_active, participating, rms_levels, weights, n, n);
    let w = weights[a];
    let loud = rms_levels[a];
    let quiet = rms_levels[b];
    assert((loud * w) / sum > (quiet * w) / sum) by (nonlinear_arith)
        requires
            loud > quiet,
            w > 0real,
            sum > 0real,
    ;
}

} // verus!
