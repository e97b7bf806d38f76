use automix_dsp::channel::{ChannelParams, TargetGain};
use automix_dsp::constants::{AUTOMIX_MAX_BLOCK_SIZE, AUTOMIX_MAX_CHANNELS};
use automix_dsp::engine::{AutomixEngine, Block};
use automix_dsp::gain_sharing::GainShare;
use automix_dsp::ring_buffer::RingBuffer;
use automix_dsp::sample::sanitize_sample;

const EPSILON: f64 = 1e-10;
const SILENCE_THRESHOLD_DB: f64 = -120.0;

fn linear_to_db(linear: f64) -> f64 {
    if linear <= 0.0 {
        SILENCE_THRESHOLD_DB
    } else {
        let db = 20.0 * linear.log10();
        if db < SILENCE_THRESHOLD_DB {
            SILENCE_THRESHOLD_DB
        } else {
            db
        }
    }
}

fn db_to_linear(db: f64) -> f64 {
    10.0_f64.powf(db / 20.0)
}

fn time_constant_to_coeff(time_ms: f64, sample_rate: f64) -> f64 {
    if time_ms <= 0.0 || sample_rate <= 0.0 {
        return 1.0;
    }
    let samples = time_ms * 0.001 * sample_rate;
    1.0 - (-1.0 / samples).exp()
}

/// One-pole smoother with separate attack and release.
struct Smoother {
    current: f64,
    attack_coeff: f64,
    release_coeff: f64,
}

impl Smoother {
    fn from_ms(attack_ms: f64, release_ms: f64, sample_rate: f64) -> Self {
        Smoother {
            current: 0.0,
            attack_coeff: time_constant_to_coeff(attack_ms, sample_rate),
            release_coeff: time_constant_to_coeff(release_ms, sample_rate),
        }
    }

    fn process(&mut self, input: f64) -> f64 {
        let coeff = if input > self.current {
            self.attack_coeff
        } else {
            self.release_coeff
        };
        self.current += coeff * (input - self.current);
        self.current
    }
}

/// The real-valued side of one channel.
struct Strip {
    weight: f64,
    window: RingBuffer<f64>,
    running_sum: f64,
    floor_level: f64,
    floor_smoother: Smoother,
    margin_linear: f64,
    gain_smoother: Smoother,
    smoothed_gain: f64,
    input_rms_db: f64,
}

impl Strip {
    fn new(sample_rate: f64) -> Self {
        let window_len = (20.0 * 0.001 * sample_rate).round() as usize;
        let init_linear = db_to_linear(-60.0);
        let mut floor_smoother = Smoother::from_ms(5000.0, 500.0, sample_rate);
        floor_smoother.current = init_linear;
        Strip {
            weight: 1.0,
            window: RingBuffer::new(window_len.max(1), 0.0),
            running_sum: 0.0,
            floor_level: init_linear,
            floor_smoother,
            margin_linear: db_to_linear(6.0),
            gain_smoother: Smoother::from_ms(5.0, 150.0, sample_rate),
            smoothed_gain: 0.0,
            input_rms_db: 0.0,
        }
    }

    fn measure(&mut self, samples: &[f32]) -> f64 {
        for &s in samples {
            let sd = f32::from_bits(sanitize_sample(s.to_bits())) as f64;
            let squared = sd * sd;
            let old = self.window.push(squared);
            self.running_sum -= old;
            self.running_sum += squared;
            if self.running_sum < 0.0 {
                self.running_sum = 0.0;
            }
        }
        let count = self.window.len() as f64;
        if count <= 0.0 {
            0.0
        } else {
            (self.running_sum / count).sqrt()
        }
    }

    fn update_floor(&mut self, rms: f64) {
        if rms < self.floor_level * self.margin_linear {
            self.floor_level = self.floor_smoother.process(rms);
        } else {
            self.floor_level = self.floor_smoother.process(self.floor_level);
        }
    }

    fn above_floor(&self, rms: f64) -> bool {
        rms > self.floor_level * self.margin_linear
    }
}

/// The mixer as a host sees it: the library's engine makes the decisions,
/// the levels and gains are measured and applied here.
struct Mixer {
    engine: AutomixEngine,
    strips: Vec<Strip>,
    nom_count: f64,
    nom_attenuation_db: f64,
}

impl Mixer {
    fn new(num_channels: usize, sample_rate: f32) -> Self {
        let sr = sample_rate as f64;
        Mixer {
            engine: AutomixEngine::new(num_channels, sample_rate as u64),
            strips: (0..AUTOMIX_MAX_CHANNELS).map(|_| Strip::new(sr)).collect(),
            nom_count: 0.0,
            nom_attenuation_db: 0.0,
        }
    }

    fn process(&mut self, buffers: &mut [Vec<f32>], num_samples: usize) {
        let num_channels = buffers.len();
        let block = match self.engine.begin_block(num_channels, num_samples) {
            Some(block) => block,
            None => return,
        };
        let n = block.channels;

        let mut rms = [0.0_f64; AUTOMIX_MAX_CHANNELS];
        for i in 0..n {
            rms[i] = self.strips[i].measure(&buffers[i][..block.samples]);
        }
        for i in 0..n {
            if self.engine.is_participating(i) {
                self.strips[i].update_floor(rms[i]);
            }
        }
        let mut above_floor = [false; AUTOMIX_MAX_CHANNELS];
        for i in 0..n {
            above_floor[i] = self.strips[i].above_floor(rms[i]);
        }
        self.engine.detect_activity(&above_floor);

        let mut weighted = [0.0_f64; AUTOMIX_MAX_CHANNELS];
        let mut weighted_sum = 0.0_f64;
        for i in 0..n {
            if self.engine.channel(i).unwrap().is_active {
                weighted[i] = rms[i] * self.strips[i].weight;
                weighted_sum += weighted[i];
            }
        }
        let result = self.engine.share_gains(weighted_sum > EPSILON);
        let atten = self.engine.nom_atten();
        let nom_db = if atten.is_unity() {
            0.0
        } else {
            -10.0 * (atten.attenuating_nom() as f64).log10()
        };
        let nom_linear = if atten.is_unity() {
            1.0
        } else {
            db_to_linear(nom_db)
        };

        for i in 0..n {
            let target = self.engine.channel(i).unwrap().raw_gain;
            let target_gain = match target {
                TargetGain::Shared => weighted[i] / weighted_sum * nom_linear,
                TargetGain::Held => 1.0 * nom_linear,
                TargetGain::Bypassed => 1.0,
                TargetGain::Silent => 0.0,
            };
            if target == TargetGain::Bypassed {
                self.strips[i].gain_smoother.current = 1.0;
                self.strips[i].smoothed_gain = 1.0;
            } else {
                for sample in buffers[i][..block.samples].iter_mut() {
                    let s = f32::from_bits(sanitize_sample(sample.to_bits()));
                    let gain = self.strips[i].gain_smoother.process(target_gain);
                    *sample = s * gain as f32;
                }
                self.strips[i].smoothed_gain = self.strips[i].gain_smoother.current;
            }
        }

        self.engine.end_block();
        for i in 0..n {
            self.strips[i].input_rms_db = linear_to_db(rms[i]);
        }
        self.nom_count = result.nom as f64;
        self.nom_attenuation_db = nom_db;
    }
}

fn flags(set: &[usize]) -> [bool; AUTOMIX_MAX_CHANNELS] {
    let mut f = [false; AUTOMIX_MAX_CHANNELS];
    for &i in set {
        f[i] = true;
    }
    f
}

#[test]
fn test_engine_creation() {
    let engine = AutomixEngine::new(8, 48000);
    assert_eq!(engine.num_channels(), 8);
    assert_eq!(engine.sample_rate(), 48000);
}

#[test]
fn test_version() {
    let version = AutomixEngine::version();
    assert_eq!(version, "0.1.0");
}

#[test]
fn version_string() {
    let v = AutomixEngine::version();
    assert!(!v.is_empty());
}

#[test]
fn global_bypass_passthrough() {
    let mut mixer = Mixer::new(2, 48000.0);
    mixer.engine.set_global_bypass(true);

    let mut buffers = vec![vec![0.5_f32; 256], vec![0.3_f32; 256]];

    mixer.process(&mut buffers, 256);

    // Audio is unmodified
    assert_eq!(buffers[0], vec![0.5_f32; 256]);
    assert_eq!(buffers[1], vec![0.3_f32; 256]);
    assert_eq!(mixer.engine.sample_counter(), 0);
}

#[test]
fn single_channel_gain_approaches_unity() {
    let mut mixer = Mixer::new(1, 48000.0);
    let amplitude = 0.5_f32;

    // Several blocks to let the smoothing converge
    for _ in 0..200 {
        let mut buffers = vec![vec![amplitude; 256]];
        mixer.process(&mut buffers, 256);
    }

    // After convergence the single active channel has a gain near 1.0
    // (with NOM=1 the attenuation is 0 dB)
    let mut final_buf = vec![vec![amplitude; 256]];
    mixer.process(&mut final_buf, 256);

    // The last sample is close to the input amplitude
    let last = final_buf[0][255];
    assert!(
        (last - amplitude).abs() < 0.05,
        "Expected ~{amplitude}, got {last}"
    );
    assert_eq!(mixer.nom_count, 1.0);
    assert_eq!(mixer.nom_attenuation_db, 0.0);
}

#[test]
fn louder_channel_gets_more_gain() {
    let mut mixer = Mixer::new(2, 48000.0);

    // Many blocks: channel 0 loud, channel 1 quiet
    for _ in 0..200 {
        let mut buffers = vec![vec![0.8_f32; 256], vec![0.1_f32; 256]];
        mixer.process(&mut buffers, 256);
    }

    let mut final_buf = vec![vec![0.8_f32; 256], vec![0.1_f32; 256]];
    mixer.process(&mut final_buf, 256);

    let ch0_out = final_buf[0][255].abs();
    let ch1_out = final_buf[1][255].abs();
    assert!(
        ch0_out > ch1_out,
        "Louder channel should have higher output: ch0={ch0_out}, ch1={ch1_out}"
    );
}

#[test]
fn muted_channel_silenced() {
    let mut mixer = Mixer::new(2, 48000.0);
    mixer.engine.set_channel_mute(1, true);

    // Converge
    for _ in 0..200 {
        let mut buffers = vec![vec![0.5_f32; 256], vec![0.5_f32; 256]];
        mixer.process(&mut buffers, 256);
    }

    let mut final_buf = vec![vec![0.5_f32; 256], vec![0.5_f32; 256]];
    mixer.process(&mut final_buf, 256);

    // The muted channel's output is near zero
    let muted_out = final_buf[1][255].abs();
    assert!(
        muted_out < 0.01,
        "Muted channel should be near zero: {muted_out}"
    );
    assert_eq!(mixer.engine.channel(1).unwrap().raw_gain, TargetGain::Silent);
}

#[test]
fn bypassed_channel_unity() {
    let mut mixer = Mixer::new(2, 48000.0);
    mixer.engine.set_channel_bypass(0, true);

    // Converge
    for _ in 0..50 {
        let mut buffers = vec![vec![0.5_f32; 256], vec![0.5_f32; 256]];
        mixer.process(&mut buffers, 256);
    }

    let mut final_buf = vec![vec![0.5_f32; 256], vec![0.5_f32; 256]];
    mixer.process(&mut final_buf, 256);

    // The bypassed channel passes through at unity
    let bypassed_out = final_buf[0][255];
    assert!((bypassed_out as f64 - 0.5).abs() <= 0.01);
}

#[test]
fn bypassed_channel_unity_after_one_block() {
    let mut mixer = Mixer::new(2, 48000.0);
    mixer.engine.set_channel_bypass(0, true);
    let mut buffers = vec![vec![0.5_f32; 256], vec![0.5_f32; 256]];
    mixer.process(&mut buffers, 256);
    assert_eq!(buffers[0], vec![0.5_f32; 256]);
    assert_eq!(mixer.strips[0].smoothed_gain, 1.0);
    assert_eq!(mixer.engine.channel(0).unwrap().raw_gain, TargetGain::Bypassed);
}

#[test]
fn metering_after_process() {
    let mut mixer = Mixer::new(2, 48000.0);

    for _ in 0..50 {
        let mut buffers = vec![vec![0.5_f32; 256], vec![0.1_f32; 256]];
        mixer.process(&mut buffers, 256);
    }

    // Input RMS is around -6 dB for an amplitude of 0.5
    let input_rms_db = mixer.strips[0].input_rms_db;
    assert!(input_rms_db > -10.0 && input_rms_db < 0.0);

    assert!(mixer.nom_count >= 0.0);
    assert_eq!(mixer.nom_count, mixer.engine.nom_count() as f64);
    assert_eq!(mixer.engine.sample_counter(), 50 * 256);
}

#[test]
fn nan_input_produces_finite_output() {
    let mut mixer = Mixer::new(2, 48000.0);

    // First converge with normal audio
    for _ in 0..100 {
        let mut buffers = vec![vec![0.5_f32; 256], vec![0.3_f32; 256]];
        mixer.process(&mut buffers, 256);
    }

    // Inject NaN
    let mut nan_buf = vec![vec![f32::NAN; 256], vec![0.3_f32; 256]];
    mixer.process(&mut nan_buf, 256);

    // All outputs are finite
    for ch in &nan_buf {
        for &s in ch {
            assert!(
                s.is_finite(),
                "Output sample is not finite after NaN injection"
            );
        }
    }

    // The engine recovers: more normal audio
    for _ in 0..100 {
        let mut buffers = vec![vec![0.5_f32; 256], vec![0.3_f32; 256]];
        mixer.process(&mut buffers, 256);
        for ch in &buffers {
            for &s in ch {
                assert!(s.is_finite(), "Output sample is not finite after recovery");
            }
        }
    }
}

#[test]
fn inf_input_produces_finite_output() {
    let mut mixer = Mixer::new(2, 48000.0);

    // Converge
    for _ in 0..100 {
        let mut buffers = vec![vec![0.5_f32; 256], vec![0.3_f32; 256]];
        mixer.process(&mut buffers, 256);
    }

    // Inject Inf and -Inf
    let mut inf_buf = vec![vec![f32::INFINITY; 256], vec![f32::NEG_INFINITY; 256]];
    mixer.process(&mut inf_buf, 256);

    for ch in &inf_buf {
        for &s in ch {
            assert!(
                s.is_finite(),
                "Output sample is not finite after Inf injection"
            );
        }
    }
}

#[test]
fn silence_after_speech_holds_last_mic() {
    let mut mixer = Mixer::new(2, 48000.0);
    // channel 1 speaks, channel 0 is silent
    for _ in 0..20 {
        let mut buffers = vec![vec![0.0_f32; 256], vec![0.5_f32; 256]];
        mixer.process(&mut buffers, 256);
    }
    assert!(mixer.engine.channel(1).unwrap().is_active);
    assert!(!mixer.engine.is_holding());
    // both fall silent: after the level window has emptied, channel 1 is held
    for _ in 0..8 {
        let mut buffers = vec![vec![0.0_f32; 256], vec![0.0_f32; 256]];
        mixer.process(&mut buffers, 256);
    }
    assert!(mixer.engine.is_holding());
    assert_eq!(mixer.engine.channel(1).unwrap().raw_gain, TargetGain::Held);
    assert_eq!(mixer.engine.channel(0).unwrap().raw_gain, TargetGain::Silent);
    // the count reported during the hold is one
    assert_eq!(mixer.nom_count, 1.0);
    // the hold runs out after 500 ms of silence: 24000 samples, 94 blocks
    for _ in 0..100 {
        let mut buffers = vec![vec![0.0_f32; 256], vec![0.0_f32; 256]];
        mixer.process(&mut buffers, 256);
    }
    assert!(!mixer.engine.is_holding());
    assert_eq!(mixer.engine.channel(1).unwrap().raw_gain, TargetGain::Silent);
    assert_eq!(mixer.nom_count, 0.0);
}

#[test]
fn new_engine_state() {
    let engine = AutomixEngine::new(4, 48000);
    assert_eq!(engine.num_channels(), 4);
    assert!(!engine.global_bypass());
    assert_eq!(engine.sample_counter(), 0);
    assert_eq!(engine.nom_count(), 0);
    assert_eq!(engine.hold_samples(), 24000);
    assert!(!engine.is_holding());
    assert!(engine.nom_atten().enabled());
    assert!(engine.nom_atten().is_unity());
    for i in 0..4usize {
        let ch = engine.channel(i).unwrap();
        assert_eq!(ch.index, i);
        assert_eq!(ch.params, ChannelParams::default());
        assert_eq!(ch.raw_gain, TargetGain::Silent);
        assert!(!ch.is_active);
        assert!(!engine.is_participating(i));
    }
    assert!(engine.channel(4).is_none());
    assert!(!engine.is_participating(4));
}

#[test]
fn channel_count_is_clamped_at_creation() {
    let engine = AutomixEngine::new(1000, 44100);
    assert_eq!(engine.num_channels(), AUTOMIX_MAX_CHANNELS);
    assert_eq!(engine.hold_samples(), 22050);
    assert!(engine.channel(31).is_some());
    assert!(engine.channel(32).is_none());
    let engine = AutomixEngine::new(0, 44100);
    assert_eq!(engine.num_channels(), 0);
    assert!(engine.channel(0).is_none());
}

#[test]
fn setters_ignore_missing_channels() {
    let mut engine = AutomixEngine::new(2, 48000);
    engine.set_channel_mute(2, true);
    engine.set_channel_solo(31, true);
    engine.set_channel_bypass(32, true);
    engine.set_channel_mute(usize::MAX, true);
    for i in 0..2usize {
        assert_eq!(engine.channel(i).unwrap().params, ChannelParams::default());
    }
    // the slots past the configured channels are untouched as well
    let block = engine.begin_block(2, 16);
    assert_eq!(block, Some(Block { channels: 2, samples: 16 }));
    assert!(engine.is_participating(0));
    assert!(engine.is_participating(1));
}

#[test]
fn setters_change_one_switch() {
    let mut engine = AutomixEngine::new(3, 48000);
    engine.set_channel_mute(0, true);
    engine.set_channel_solo(1, true);
    engine.set_channel_bypass(2, true);
    assert_eq!(
        engine.channel(0).unwrap().params,
        ChannelParams { muted: true, soloed: false, bypassed: false }
    );
    assert_eq!(
        engine.channel(1).unwrap().params,
        ChannelParams { muted: false, soloed: true, bypassed: false }
    );
    assert_eq!(
        engine.channel(2).unwrap().params,
        ChannelParams { muted: false, soloed: false, bypassed: true }
    );
    engine.set_channel_mute(0, false);
    engine.set_channel_solo(0, true);
    assert_eq!(
        engine.channel(0).unwrap().params,
        ChannelParams { muted: false, soloed: true, bypassed: false }
    );
}

#[test]
fn hold_time_is_clamped() {
    let mut engine = AutomixEngine::new(2, 48000);
    engine.set_hold_time_ms(1000);
    assert_eq!(engine.hold_samples(), 48000);
    engine.set_hold_time_ms(5000);
    assert_eq!(engine.hold_samples(), 240000);
    engine.set_hold_time_ms(5001);
    assert_eq!(engine.hold_samples(), 240000);
    engine.set_hold_time_ms(u64::MAX);
    assert_eq!(engine.hold_samples(), 240000);
    engine.set_hold_time_ms(0);
    assert_eq!(engine.hold_samples(), 0);
    engine.set_hold_samples(12345);
    assert_eq!(engine.hold_samples(), 12345);
}

#[test]
fn empty_block_is_a_no_op() {
    let mut engine = AutomixEngine::new(2, 48000);
    engine.set_channel_solo(1, true);
    let above = flags(&[0, 1]);

    // no samples
    assert_eq!(engine.begin_block(2, 0), None);
    assert_eq!(engine.block(), None);
    assert_eq!(engine.detect_activity(&above), None);
    let result = engine.share_gains(true);
    assert_eq!(result.nom, 0);
    assert_eq!(result.gains, [GainShare::Zero; AUTOMIX_MAX_CHANNELS]);
    engine.end_block();

    // no channels
    assert_eq!(engine.begin_block(0, 256), None);
    assert_eq!(engine.detect_activity(&above), None);
    let result = engine.share_gains(true);
    assert_eq!(result.nom, 0);
    engine.end_block();

    assert_eq!(engine.sample_counter(), 0);
    assert_eq!(engine.nom_count(), 0);
    assert!(!engine.is_holding());
    assert!(engine.nom_atten().is_unity());
    assert_eq!(engine.nom_atten().nom(), 1);
    for i in 0..2usize {
        let ch = engine.channel(i).unwrap();
        assert!(!ch.is_active);
        assert_eq!(ch.raw_gain, TargetGain::Silent);
        assert!(!engine.is_participating(i));
    }

    // an engine without channels skips every block
    let mut none = AutomixEngine::new(0, 48000);
    assert_eq!(none.begin_block(4, 256), None);
    none.end_block();
    assert_eq!(none.sample_counter(), 0);
}

#[test]
fn global_bypass_is_a_no_op() {
    let mut engine = AutomixEngine::new(2, 48000);
    engine.set_global_bypass(true);
    assert!(engine.global_bypass());
    let above = flags(&[0, 1]);
    assert_eq!(engine.begin_block(2, 256), None);
    assert_eq!(engine.detect_activity(&above), None);
    let result = engine.share_gains(true);
    assert_eq!(result.nom, 0);
    engine.end_block();
    assert_eq!(engine.sample_counter(), 0);
    assert!(!engine.channel(0).unwrap().is_active);
    assert!(!engine.is_participating(0));

    engine.set_global_bypass(false);
    assert_eq!(engine.begin_block(2, 256), Some(Block { channels: 2, samples: 256 }));
}

#[test]
fn steps_without_a_block_change_nothing() {
    let mut engine = AutomixEngine::new(3, 48000);
    let above = flags(&[0, 1, 2]);
    // nothing was begun
    assert_eq!(engine.detect_activity(&above), None);
    let result = engine.share_gains(true);
    assert_eq!(result.nom, 0);
    assert_eq!(result.gains, [GainShare::Zero; AUTOMIX_MAX_CHANNELS]);
    engine.end_block();
    assert_eq!(engine.sample_counter(), 0);
    assert_eq!(engine.nom_count(), 0);
    for i in 0..3usize {
        assert_eq!(engine.channel(i).unwrap(), automix_dsp::channel::Channel::new(i));
    }

    // a block that was ended is not processed again
    engine.begin_block(3, 100);
    engine.detect_activity(&above);
    engine.share_gains(true);
    engine.end_block();
    assert_eq!(engine.block(), None);
    assert_eq!(engine.sample_counter(), 100);
    engine.end_block();
    assert_eq!(engine.sample_counter(), 100);
    let result = engine.share_gains(false);
    assert_eq!(result.nom, 0);
    assert_eq!(engine.nom_count(), 3);
    assert_eq!(engine.channel(0).unwrap().raw_gain, TargetGain::Shared);
}

#[test]
fn skipped_block_closes_block_in_progress() {
    let mut engine = AutomixEngine::new(2, 48000);
    assert_eq!(engine.begin_block(2, 64), Some(Block { channels: 2, samples: 64 }));
    assert_eq!(engine.block(), Some(Block { channels: 2, samples: 64 }));
    assert_eq!(engine.begin_block(2, 0), None);
    assert_eq!(engine.block(), None);
    engine.end_block();
    assert_eq!(engine.sample_counter(), 0);
}

#[test]
fn block_is_held_to_configured_channels_and_ceiling() {
    let mut engine = AutomixEngine::new(3, 48000);
    assert_eq!(engine.begin_block(8, 100), Some(Block { channels: 3, samples: 100 }));
    assert_eq!(engine.begin_block(2, 100), Some(Block { channels: 2, samples: 100 }));
    assert_eq!(
        engine.begin_block(3, AUTOMIX_MAX_BLOCK_SIZE),
        Some(Block { channels: 3, samples: 4096 })
    );
    assert_eq!(
        engine.begin_block(3, AUTOMIX_MAX_BLOCK_SIZE + 1),
        Some(Block { channels: 3, samples: 4096 })
    );
    assert_eq!(
        engine.begin_block(usize::MAX, usize::MAX),
        Some(Block { channels: 3, samples: 4096 })
    );
    engine.end_block();
    assert_eq!(engine.sample_counter(), 4096);
    engine.begin_block(1, 10);
    engine.end_block();
    assert_eq!(engine.sample_counter(), 4106);
}

#[test]
fn solo_shuts_out_other_channels() {
    let mut engine = AutomixEngine::new(4, 48000);
    engine.set_channel_solo(1, true);
    engine.set_channel_solo(2, true);
    engine.set_channel_mute(2, true);
    engine.begin_block(4, 64);
    assert!(!engine.is_participating(0));
    assert!(engine.is_participating(1));
    assert!(!engine.is_participating(2));
    assert!(!engine.is_participating(3));

    // a solo past the processed channels does not count
    let mut engine = AutomixEngine::new(4, 48000);
    engine.set_channel_solo(3, true);
    engine.begin_block(3, 64);
    assert!(engine.is_participating(0));
    assert!(engine.is_participating(1));
    assert!(engine.is_participating(2));
    engine.begin_block(4, 64);
    assert!(!engine.is_participating(0));
    assert!(!engine.is_participating(1));
    assert!(!engine.is_participating(2));
    assert!(engine.is_participating(3));
}

#[test]
fn targets_follow_switches() {
    let mut engine = AutomixEngine::new(5, 48000);
    engine.set_channel_mute(1, true);
    engine.set_channel_bypass(2, true);
    let above = flags(&[0, 1, 2, 4]);
    assert!(engine.begin_block(5, 128).is_some());
    let held = engine.detect_activity(&above);
    assert_eq!(held, None);
    let result = engine.share_gains(true);
    engine.end_block();

    assert_eq!(result.nom, 2);
    assert_eq!(result.gains[0], GainShare::Proportional);
    assert_eq!(result.gains[1], GainShare::Zero);
    assert_eq!(result.gains[2], GainShare::Zero);
    assert_eq!(result.gains[3], GainShare::Zero);
    assert_eq!(result.gains[4], GainShare::Proportional);

    let targets: Vec<TargetGain> =
        (0..5usize).map(|i| engine.channel(i).unwrap().raw_gain).collect();
    assert_eq!(
        targets,
        vec![
            TargetGain::Shared,
            TargetGain::Silent,
            TargetGain::Bypassed,
            TargetGain::Silent,
            TargetGain::Shared
        ]
    );
    let active: Vec<bool> = (0..5usize).map(|i| engine.channel(i).unwrap().is_active).collect();
    assert_eq!(active, vec![true, false, false, false, true]);
    assert_eq!(engine.nom_count(), 2);
    assert_eq!(engine.nom_atten().nom(), 2);
    assert_eq!(engine.nom_atten().attenuating_nom(), 2);
    assert_eq!(engine.sample_counter(), 128);
}

#[test]
fn solo_excluded_channel_is_silent() {
    let mut engine = AutomixEngine::new(3, 48000);
    engine.set_channel_solo(0, true);
    engine.set_channel_bypass(2, true);
    let above = flags(&[0, 1, 2]);
    engine.begin_block(3, 32);
    engine.detect_activity(&above);
    let result = engine.share_gains(true);
    engine.end_block();
    assert_eq!(result.nom, 1);
    assert_eq!(engine.channel(0).unwrap().raw_gain, TargetGain::Shared);
    assert_eq!(engine.channel(1).unwrap().raw_gain, TargetGain::Silent);
    // bypass wins over the solo of another channel
    assert_eq!(engine.channel(2).unwrap().raw_gain, TargetGain::Bypassed);
    assert!(!engine.channel(1).unwrap().is_active);
    assert!(!engine.channel(2).unwrap().is_active);
}

#[test]
fn hold_pins_highest_open_channel() {
    let mut engine = AutomixEngine::new(4, 48000);
    // channels 0 and 2 are open: channel 2 is remembered
    let above = flags(&[0, 2]);
    engine.begin_block(4, 256);
    assert_eq!(engine.detect_activity(&above), None);
    engine.share_gains(true);
    engine.end_block();

    // silence: channel 2 is held
    let silent = flags(&[]);
    engine.begin_block(4, 256);
    let held = engine.detect_activity(&silent);
    assert_eq!(held, Some(2));
    assert!(engine.is_holding());
    let result = engine.share_gains(false);
    engine.end_block();
    assert_eq!(result.nom, 1);
    assert_eq!(result.gains[2], GainShare::Unity);
    assert_eq!(engine.channel(2).unwrap().raw_gain, TargetGain::Held);
    assert_eq!(engine.channel(0).unwrap().raw_gain, TargetGain::Silent);
    assert!(engine.nom_atten().is_unity());
    assert_eq!(engine.nom_count(), 1);

    // the held channel is muted: the hold is given up
    engine.set_channel_mute(2, true);
    engine.begin_block(4, 256);
    let held = engine.detect_activity(&silent);
    assert_eq!(held, None);
    assert!(!engine.is_holding());
    let result = engine.share_gains(false);
    engine.end_block();
    assert_eq!(result.nom, 0);
    assert_eq!(engine.channel(2).unwrap().raw_gain, TargetGain::Silent);

    // unmuted again, it is not held any more: it was forgotten
    engine.set_channel_mute(2, false);
    engine.begin_block(4, 256);
    assert_eq!(engine.detect_activity(&silent), None);
}

#[test]
fn hold_runs_out_after_its_duration() {
    let mut engine = AutomixEngine::new(1, 48000);
    engine.set_hold_samples(1000);
    let open = flags(&[0]);
    let silent = flags(&[]);
    engine.begin_block(1, 256);
    engine.detect_activity(&open);
    engine.share_gains(true);
    engine.end_block();
    // 256, 512, 768 samples of silence are within the hold; 1024 are not
    for k in 1..=5u32 {
        engine.begin_block(1, 256);
        let held = engine.detect_activity(&silent);
        let result = engine.share_gains(false);
        engine.end_block();
        if k <= 3 {
            assert_eq!(held, Some(0));
            assert_eq!(result.nom, 1);
            assert_eq!(engine.channel(0).unwrap().raw_gain, TargetGain::Held);
        } else {
            assert_eq!(held, None);
            assert_eq!(result.nom, 0);
            assert_eq!(engine.channel(0).unwrap().raw_gain, TargetGain::Silent);
        }
    }
}

#[test]
fn hold_of_zero_never_fires() {
    let mut engine = AutomixEngine::new(2, 48000);
    engine.set_hold_time_ms(0);
    let above = flags(&[1]);
    engine.begin_block(2, 256);
    assert_eq!(engine.detect_activity(&above), None);
    engine.end_block();
    let silent = flags(&[]);
    for _ in 0..10 {
        engine.begin_block(2, 256);
        assert_eq!(engine.detect_activity(&silent), None);
        assert!(!engine.is_holding());
        let result = engine.share_gains(false);
        assert_eq!(result.gains, [GainShare::Zero; AUTOMIX_MAX_CHANNELS]);
        engine.end_block();
    }
}

#[test]
fn disabled_attenuation_stays_unity() {
    let mut engine = AutomixEngine::new(4, 48000);
    engine.set_nom_atten_enabled(false);
    let above = flags(&[0, 1, 2, 3]);
    engine.begin_block(4, 256);
    engine.detect_activity(&above);
    let result = engine.share_gains(true);
    engine.end_block();
    assert_eq!(result.nom, 4);
    assert_eq!(engine.nom_count(), 4);
    assert!(engine.nom_atten().is_unity());
    assert!(!engine.nom_atten().enabled());

    engine.set_nom_atten_enabled(true);
    assert!(engine.nom_atten().is_unity());
    engine.begin_block(4, 256);
    engine.detect_activity(&above);
    engine.share_gains(true);
    engine.end_block();
    assert_eq!(engine.nom_atten().attenuating_nom(), 4);
}

#[test]
fn stale_flags_past_the_block_are_ignored() {
    let mut engine = AutomixEngine::new(4, 48000);
    let above = flags(&[0, 1, 2, 3]);
    engine.begin_block(4, 64);
    engine.detect_activity(&above);
    let result = engine.share_gains(true);
    engine.end_block();
    assert_eq!(result.nom, 4);
    // a shorter block: channels 2 and 3 keep their state and do not count
    engine.begin_block(2, 64);
    engine.detect_activity(&above);
    let result = engine.share_gains(true);
    engine.end_block();
    assert_eq!(result.nom, 2);
    assert_eq!(result.gains[2], GainShare::Zero);
    assert_eq!(result.gains[3], GainShare::Zero);
    assert_eq!(engine.channel(2).unwrap().raw_gain, TargetGain::Shared);
    assert!(engine.channel(3).unwrap().is_active);
}
