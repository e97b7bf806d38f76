use automix_dsp::channel::{Channel, ChannelParams, TargetGain};

#[test]
fn default_params() {
    let p = ChannelParams::default();
    assert!(!p.muted);
    assert!(!p.soloed);
    assert!(!p.bypassed);
}

#[test]
fn participating_normal() {
    let p = ChannelParams::default();
    assert!(p.is_participating(false));
}

#[test]
fn muted_not_participating() {
    let p = ChannelParams {
        muted: true,
        ..Default::default()
    };
    assert!(!p.is_participating(false));
    assert!(!p.is_participating(true));
}

#[test]
fn bypassed_not_participating() {
    let p = ChannelParams {
        bypassed: true,
        ..Default::default()
    };
    assert!(!p.is_participating(false));
}

#[test]
fn solo_logic() {
    // When some channel is soloed, channels that are not soloed stay out
    let normal = ChannelParams::default();
    assert!(!normal.is_participating(true));

    let soloed = ChannelParams {
        soloed: true,
        ..Default::default()
    };
    assert!(soloed.is_participating(true));
}

#[test]
fn solo_and_mute() {
    // Mute wins over solo
    let p = ChannelParams {
        soloed: true,
        muted: true,
        ..Default::default()
    };
    assert!(!p.is_participating(true));
}

#[test]
fn channel_creation() {
    let ch = Channel::new(3);
    assert_eq!(ch.index, 3);
    assert_eq!(ch.raw_gain, TargetGain::Silent);
    assert!(!ch.is_active);
    assert_eq!(ch.params, ChannelParams::default());
}

#[test]
fn participation_truth_table() {
    for bits in 0..16u32 {
        let muted = bits & 1 != 0;
        let soloed = bits & 2 != 0;
        let bypassed = bits & 4 != 0;
        let any_solo = bits & 8 != 0;
        let p = ChannelParams {
            muted,
            soloed,
            bypassed,
        };
        let expected = !muted && !bypassed && (!any_solo || soloed);
        assert_eq!(p.is_participating(any_solo), expected);
    }
}

#[test]
fn soloed_and_bypassed_stays_out() {
    let p = ChannelParams {
        soloed: true,
        bypassed: true,
        ..Default::default()
    };
    assert!(!p.is_participating(true));
    assert!(!p.is_participating(false));
}

#[test]
fn channel_reset_keeps_index_and_switches() {
    let mut ch = Channel::new(7);
    ch.params.muted = true;
    ch.params.soloed = true;
    ch.raw_gain = TargetGain::Shared;
    ch.is_active = true;
    ch.reset();
    assert_eq!(ch.index, 7);
    assert!(ch.params.muted);
    assert!(ch.params.soloed);
    assert!(!ch.params.bypassed);
    assert_eq!(ch.raw_gain, TargetGain::Silent);
    assert!(!ch.is_active);
}
