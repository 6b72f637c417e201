use recorder::convert::{RechannelPlan, ResamplePlan};
use recorder::audio::{
    AudioConversion,
    after_encode, encode_channels, opus_sample_rate, AudioConfig, AudioSlot, Channels,
    FRAME_INTERVAL_MS,
};

#[test]
fn opus_rate_table() {
    assert_eq!(opus_sample_rate(0), 8000);
    assert_eq!(opus_sample_rate(11999), 8000);
    assert_eq!(opus_sample_rate(12000), 12000);
    assert_eq!(opus_sample_rate(15999), 12000);
    assert_eq!(opus_sample_rate(16000), 16000);
    assert_eq!(opus_sample_rate(22050), 16000);
    assert_eq!(opus_sample_rate(24000), 24000);
    assert_eq!(opus_sample_rate(44100), 24000);
    assert_eq!(opus_sample_rate(48000), 48000);
    assert_eq!(opus_sample_rate(96000), 48000);
}

#[test]
fn channel_layout_policy() {
    assert_eq!(encode_channels(0), Channels::Mono);
    assert_eq!(encode_channels(1), Channels::Mono);
    assert_eq!(encode_channels(2), Channels::Stereo);
    assert_eq!(encode_channels(8), Channels::Stereo);
    assert_eq!(Channels::Mono.count(), 1);
    assert_eq!(Channels::Stereo.count(), 2);
}

#[test]
fn config_for_stereo_48k_device() {
    let c = AudioConfig::for_device(48000, 2);
    assert_eq!(c.sample_rate, 48000);
    assert_eq!(c.encode_channel, Channels::Stereo);
    assert_eq!(c.samples_per_frame(), 1600);
    assert_eq!(c.rechannel_quantum(), 960);
    assert_eq!(c.ring_capacity(), 96000);
    assert_eq!(c.supported_frame_sizes(), vec![240, 480, 960, 1920, 3840, 5760]);
    assert_eq!(c.default_frame_size(), 3840);
    assert_eq!(FRAME_INTERVAL_MS, 16);
}

#[test]
fn config_for_mono_44k_device() {
    let c = AudioConfig::for_device(44100, 1);
    assert_eq!(c.sample_rate, 24000);
    assert_eq!(c.encode_channel, Channels::Mono);
    assert_eq!(c.samples_per_frame(), 400);
    assert_eq!(c.rechannel_quantum(), 441);
    assert_eq!(c.supported_frame_sizes(), vec![60, 120, 240, 480, 960, 1440]);
    assert_eq!(c.default_frame_size(), 960);
}

#[test]
fn config_for_six_channel_device() {
    let c = AudioConfig::for_device(16000, 6);
    assert_eq!(c.encode_channel, Channels::Stereo);
    assert_eq!(c.rechannel_quantum(), 960);
    assert_eq!(c.ring_capacity(), 96000);
    assert!(c.is_supported_frame_size(640));
    assert!(!c.is_supported_frame_size(641));
}

#[test]
fn audio_slot_decisions() {
    let c = AudioConfig::for_device(48000, 2);
    assert_eq!(c.audio_slot(0, 0), AudioSlot::Empty);
    assert_eq!(c.audio_slot(0, 960), AudioSlot::Encode { keyframe: true });
    assert_eq!(c.audio_slot(61, 960), AudioSlot::Encode { keyframe: false });
    assert_eq!(c.audio_slot(120, 3840), AudioSlot::Encode { keyframe: true });
    assert_eq!(c.audio_slot(5, 1600), AudioSlot::Silence);
    assert_eq!(c.audio_slot(60, 1), AudioSlot::Silence);
}

#[test]
fn failed_encode_falls_back_to_silence() {
    let enc = AudioSlot::Encode { keyframe: true };
    assert_eq!(after_encode(enc, true), enc);
    assert_eq!(after_encode(enc, false), AudioSlot::Silence);
    assert_eq!(after_encode(AudioSlot::Silence, true), AudioSlot::Silence);
    assert_eq!(after_encode(AudioSlot::Empty, false), AudioSlot::Empty);
}

#[test]
fn converter_plan_for_44k_six_channels() {
    // 44.1 kHz, 6 channels: resample to 24 kHz, then mix down to stereo.
    let c = AudioConfig::for_device(44100, 6);
    assert_eq!(
        c.audio_conversion(441 * 6),
        AudioConversion {
            resample: ResamplePlan::Interpolate { frames: 240 },
            rechannel: RechannelPlan::Mix { frames: 240 },
        }
    );
}

#[test]
fn converter_plan_when_device_matches_opus() {
    let c = AudioConfig::for_device(48000, 2);
    assert_eq!(
        c.audio_conversion(1601),
        AudioConversion { resample: ResamplePlan::Keep, rechannel: RechannelPlan::Keep }
    );
    let mono = AudioConfig::for_device(16000, 1);
    assert_eq!(
        mono.audio_conversion(321),
        AudioConversion { resample: ResamplePlan::Keep, rechannel: RechannelPlan::Keep }
    );
}
