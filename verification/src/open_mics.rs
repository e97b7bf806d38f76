//! Which microphones are open: the channels that both take part in the mix
//! and carry signal above their noise floor.
use vstd::prelude::*;
use crate::constants::AUTOMIX_MAX_CHANNELS;

verus! {

/// The number of channels in use: the requested count, held to the
/// engine's ceiling.
pub open spec fn channels_in_use(num_channels: nat) -> nat {
    if num_channels <= AUTOMIX_MAX_CHANNELS {
        num_channels
    } else {
        AUTOMIX_MAX_CHANNELS as nat
    }
}

/// Channel `i` is an open microphone among the first `n` channels.
pub open spec fn is_open(is_active: Seq<bool>, participating: Seq<bool>, n: nat, i: int) -> bool {
    0 <= i < n && participating[i] && is_active[i]
}

/// The number of open microphones among the first `n` channels.
pub open spec fn count_open(is_active: Seq<bool>, participating: Seq<bool>, n: nat) -> nat
    decreases n,
{
    if n == 0 {
        0
    } else {
        count_open(is_active, participating, (n - 1) as nat) + if is_open(
            is_active,
            participating,
            n,
            n - 1,
        ) {
            1nat
        } else {
            0nat
        }
    }
}

/// The open microphone with the highest index among the first `n` channels.
pub open spec fn last_open(is_active: Seq<bool>, participating: Seq<bool>, n: nat) -> Option<usize>
    decreases n,
{
    if n == 0 {
        None
    } else if is_open(is_active, participating, n, n - 1) {
        Some((n - 1) as usize)
    } else {
        last_open(is_active, participating, (n - 1) as nat)
    }
}

/// No microphone is open among the first `n` channels.
pub open spec fn all_silent(is_active: Seq<bool>, participating: Seq<bool>, n: nat) -> bool {
    forall|i: int| !is_open(is_active, participating, n, i)
}

/// `last_open` picks the open microphone with the highest index: it is open,
/// no channel above it is, and it is `None` exactly in silence.
pub proof fn lemma_last_open_is_highest(is_active: Seq<bool>, participating: Seq<bool>, n: nat)
    requires
        n <= AUTOMIX_MAX_CHANNELS,
    ensures
        match last_open(is_active, participating, n) {
            Some(c) => is_open(is_active, participating, n, c as int) && forall|j: int|
                c < j ==> !is_open(is_active, participating, n, j),
            None => all_silent(is_active, participating, n),
        },
    decreases n,
{
    if n > 0 && !is_open(is_active, participating, n, n - 1) {
        let m = (n - 1) as nat;
        lemma_last_open_is_highest(is_active, participating, m);
        assert forall|j: int| is_open(is_active, participating, n, j) implies is_open(
            is_active,
            participating,
            m,
            j,
        ) by {}
    }
}

/// At most every channel in use is open, and none is open exactly in silence.
pub proof fn lemma_count_open_bounds(is_active: Seq<bool>, participating: Seq<bool>, n: nat)
    ensures
        count_open(is_active, participating, n) <= n,
        count_open(is_active, participating, n) == 0 <==> all_silent(is_active, participating, n),
    decreases n,
{
    if n > 0 {
        let m = (n - 1) as nat;
        lemma_count_open_bounds(is_active, participating, m);
        if all_silent(is_active, participating, n) {
            assert forall|j: int| !is_open(is_active, participating, m, j) by {
                assert(!is_open(is_active, participating, n, j));
            }
            assert(!is_open(is_active, participating, n, n - 1));
        }
        if count_open(is_active, participating, n) == 0 {
            assert forall|j: int| !is_open(is_active, participating, n, j) by {
                assert(!is_open(is_active, participating, m, j));
            }
        }
    }
}

} // verus!
