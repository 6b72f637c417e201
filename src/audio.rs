use crate::convert::{
    rechannel_plan, resample_plan, resampled_frames, spec_rechannel_plan, spec_resample_plan,
    RechannelPlan, ResamplePlan,
};
use vstd::prelude::*;

verus! {

/// Video frames per second that the producer aims at.
pub const FPS: u64 = 60;

/// Milliseconds the producer sleeps between two frames.
pub const FRAME_INTERVAL_MS: u64 = 1000 / FPS;

/// Bitrate of the Opus encoder, in bits per second.
pub const OPUS_BITRATE: i32 = 128000;

/// Channel layout handed to the Opus encoder.
#[derive(Clone, Copy, Debug, PartialEq, Eq, Structural)]
pub enum Channels {
    Mono,
    Stereo,
}

impl Channels {
    pub open spec fn spec_count(self) -> int {
        match self {
            Channels::Mono => 1,
            Channels::Stereo => 2,
        }
    }

    /// The number of interleaved channels of the layout.
    pub fn count(&self) -> (r: u16)
        ensures
            r == self.spec_count(),
    {
        match self {
            Channels::Mono => 1,
            Channels::Stereo => 2,
        }
    }
}

/// The Opus rate chosen for a device rate: the largest of 8, 12, 16, 24 and 48 kHz that
/// does not exceed it, and 8 kHz below that.
pub open spec fn opus_rate_for(rate0: int) -> int {
    if rate0 < 12000 {
        8000
    } else if rate0 < 16000 {
        12000
    } else if rate0 < 24000 {
        16000
    } else if rate0 < 48000 {
        24000
    } else {
        48000
    }
}

/// One of the sample rates Opus accepts.
pub open spec fn is_opus_rate(rate: int) -> bool {
    rate == 8000 || rate == 12000 || rate == 16000 || rate == 24000 || rate == 48000
}

/// The layout Opus encodes a device's audio in: stereo for more than one channel.
pub open spec fn encode_layout_for(device_channel: int) -> Channels {
    if device_channel > 1 {
        Channels::Stereo
    } else {
        Channels::Mono
    }
}

/// Selects the Opus sample rate for a device's native rate.
pub fn opus_sample_rate(sample_rate_0: u32) -> (r: u32)
    ensures
        r == opus_rate_for(sample_rate_0 as int),
        is_opus_rate(r as int),
{
    if sample_rate_0 < 12000 {
        8000
    } else if sample_rate_0 < 16000 {
        12000
    } else if sample_rate_0 < 24000 {
        16000
    } else if sample_rate_0 < 48000 {
        24000
    } else {
        48000
    }
}

/// Selects the Opus channel layout for a device's channel count.
pub fn encode_channels(device_channel: u16) -> (r: Channels)
    ensures
        r == encode_layout_for(device_channel as int),
{
    if device_channel > 1 {
        Channels::Stereo
    } else {
        Channels::Mono
    }
}

/// Opus frame durations in tenths of a millisecond: 2.5, 5, 10, 20, 40 and 60 ms.
pub open spec fn frame_tenths() -> Seq<int> {
    seq![25, 50, 100, 200, 400, 600]
}

/// Samples in one Opus frame of `tenths` tenths of a millisecond at `rate` interleaved
/// samples per second.
pub open spec fn frame_size_for(rate: int, tenths: int) -> int {
    rate * tenths / 10000
}

/// Whether an audio chunk carries a key flag: the first, then one each second of video.
pub open spec fn is_audio_keyframe(seq: int) -> bool {
    seq % (FPS as int) == 0
}

/// What the consumer does with the audio of one packet.
#[derive(Clone, Copy, Debug, PartialEq, Eq, Structural)]
pub enum AudioSlot {
    /// The packet carries no audio: nothing goes to the audio track.
    Empty,
    /// Encode the samples and add them with this key flag.
    Encode { keyframe: bool },
    /// Add the pre-encoded silent frame, without key flag.
    Silence,
}

/// The conversions a converter applies to the audio of one packet, in this order.
#[derive(Clone, Copy, Debug, PartialEq, Eq, Structural)]
pub struct AudioConversion {
    /// From the device rate to the Opus rate, in the device's channels.
    pub resample: ResamplePlan,
    /// From the device's channels to the Opus layout, on the resampled block.
    pub rechannel: RechannelPlan,
}

/// Samples in a block after the resampling step of a plan.
pub open spec fn resampled_len(len: int, channels: int, plan: ResamplePlan) -> int {
    match plan {
        ResamplePlan::Keep => len,
        ResamplePlan::Interpolate { frames } => frames * channels,
    }
}

/// The audio format of a recording session.
#[derive(Clone, Copy, Debug, PartialEq, Eq, Structural)]
pub struct AudioConfig {
    /// Rate handed to Opus.
    pub sample_rate: u32,
    /// Native rate of the input device.
    pub sample_rate_0: u32,
    /// Native channel count of the input device.
    pub device_channel: u16,
    /// Layout handed to Opus.
    pub encode_channel: Channels,
}

impl AudioConfig {
    /// A configuration as the session derives it from the device's format.
    pub open spec fn wf(&self) -> bool {
        &&& self.sample_rate == opus_rate_for(self.sample_rate_0 as int)
        &&& self.encode_channel == encode_layout_for(self.device_channel as int)
    }

    /// Interleaved samples per second at the encoder.
    pub open spec fn encode_rate(&self) -> int {
        self.sample_rate * self.encode_channel.spec_count()
    }

    /// The sample counts that one Opus encode call accepts, shortest frame first.
    pub open spec fn frame_sizes(&self) -> Seq<int> {
        frame_tenths().map_values(|t: int| frame_size_for(self.encode_rate(), t))
    }

    pub open spec fn spec_samples_per_frame(&self) -> int {
        (self.sample_rate as int / FPS as int) * self.encode_channel.spec_count()
    }

    pub open spec fn spec_rechannel_quantum(&self) -> int {
        (self.sample_rate_0 as int / 100) * self.device_channel
    }

    pub open spec fn spec_audio_slot(&self, seq: int, len: int) -> AudioSlot {
        if len == 0 {
            AudioSlot::Empty
        } else if self.frame_sizes().contains(len) {
            AudioSlot::Encode { keyframe: is_audio_keyframe(seq) }
        } else {
            AudioSlot::Silence
        }
    }

    pub open spec fn spec_audio_conversion(&self, len: int) -> AudioConversion {
        let resample = spec_resample_plan(
            len,
            self.device_channel as int,
            self.sample_rate_0 as int,
            self.sample_rate as int,
        );
        AudioConversion {
            resample,
            rechannel: spec_rechannel_plan(
                resampled_len(len, self.device_channel as int, resample),
                self.device_channel as int,
                self.encode_channel.spec_count(),
            ),
        }
    }

    /// The configuration for an input device with the given native rate and channel count.
    pub fn for_device(sample_rate_0: u32, device_channel: u16) -> (r: AudioConfig)
        ensures
            r.wf(),
            r.sample_rate_0 == sample_rate_0,
            r.device_channel == device_channel,
    {
        AudioConfig {
            sample_rate: opus_sample_rate(sample_rate_0),
            sample_rate_0,
            device_channel,
            encode_channel: encode_channels(device_channel),
        }
    }

    /// Audio samples the producer gathers for each video frame.
    pub fn samples_per_frame(&self) -> (r: usize)
        ensures
            r == self.spec_samples_per_frame(),
    {
        let per_frame = self.sample_rate / FPS as u32;
        assert(per_frame <= 71582788) by (nonlinear_arith)
            requires
                per_frame == self.sample_rate / 60,
                self.sample_rate <= 0xffff_ffff,
        ;
        let channels = self.encode_channel.count() as u32;
        assert(per_frame * channels <= 0x0fff_ffff) by (nonlinear_arith)
            requires
                per_frame <= 71582788,
                channels <= 2,
        ;
        (per_frame * channels) as usize
    }

    /// Samples the audio tap moves to the ring buffer at a time: 10 ms of device audio.
    pub fn rechannel_quantum(&self) -> (r: u64)
        ensures
            r == self.spec_rechannel_quantum(),
    {
        let per_10ms = self.sample_rate_0 as u64 / 100;
        let channels = self.device_channel as u64;
        assert(per_10ms * channels <= 0xffff_ffff * 0xffff) by (nonlinear_arith)
            requires
                per_10ms <= 0xffff_ffff,
                channels <= 0xffff,
        ;
        per_10ms * channels
    }

    /// Capacity of the ring buffer between the audio tap and the producer: one second.
    pub fn ring_capacity(&self) -> (r: u64)
        ensures
            r == self.sample_rate * self.device_channel,
    {
        let rate = self.sample_rate as u64;
        let channels = self.device_channel as u64;
        assert(rate * channels <= 0xffff_ffff * 0xffff) by (nonlinear_arith)
            requires
                rate <= 0xffff_ffff,
                channels <= 0xffff,
        ;
        rate * channels
    }

    /// Samples in one Opus frame of `tenths` tenths of a millisecond.
    fn frame_size(&self, tenths: u64) -> (r: u64)
        requires
            tenths <= 600,
        ensures
            r == frame_size_for(self.encode_rate(), tenths as int),
    {
        let per_channel = self.sample_rate as u64;
        let channels = self.encode_channel.count() as u64;
        assert(per_channel * channels <= 0xffff_ffff * 2) by (nonlinear_arith)
            requires
                per_channel <= 0xffff_ffff,
                channels <= 2,
        ;
        let rate = per_channel * channels;
        assert(rate * tenths <= 0xffff_ffff * 2 * 600) by (nonlinear_arith)
            requires
                rate <= 0xffff_ffff * 2,
                tenths <= 600,
        ;
        rate * tenths / 10000
    }

    /// The sample counts that one Opus encode call accepts, shortest frame first.
    pub fn supported_frame_sizes(&self) -> (r: Vec<u64>)
        ensures
            r@.len() == self.frame_sizes().len(),
            forall|i: int| 0 <= i < r@.len() ==> r@[i] == #[trigger] self.frame_sizes()[i],
    {
        let r = vec![
            self.frame_size(25),
            self.frame_size(50),
            self.frame_size(100),
            self.frame_size(200),
            self.frame_size(400),
            self.frame_size(600),
        ];
        r
    }

    /// Samples in the 40 ms frame, the length of the pre-encoded silent frame.
    pub fn default_frame_size(&self) -> (r: u64)
        ensures
            r == self.frame_sizes()[4],
    {
        self.frame_size(400)
    }

    /// Whether `len` samples make a frame that Opus accepts.
    pub fn is_supported_frame_size(&self, len: usize) -> (r: bool)
        ensures
            r == self.frame_sizes().contains(len as int),
    {
        let sizes = self.supported_frame_sizes();
        let mut i: usize = 0;
        while i < sizes.len()
            invariant
                i <= sizes@.len(),
                sizes@.len() == self.frame_sizes().len(),
                forall|j: int| 0 <= j < sizes@.len() ==> sizes@[j] == #[trigger] self.frame_sizes()[j],
                forall|j: int| 0 <= j < i ==> self.frame_sizes()[j] != len,
            decreases sizes@.len() - i,
        {
            if sizes[i] == len as u64 {
                assert(self.frame_sizes()[i as int] == len);
                return true;
            }
            i += 1;
        }
        assert forall|j: int| 0 <= j < self.frame_sizes().len() implies self.frame_sizes()[j] != len by {}
        false
    }

    /// Plans the conversion of a packet's `len` device samples into what Opus takes:
    /// resample where the rates differ, then remap where the channel counts differ.
    pub fn audio_conversion(&self, len: usize) -> (r: AudioConversion)
        requires
            self.device_channel > 0,
            self.sample_rate_0 > 0,
            resampled_frames(
                len as int,
                self.device_channel as int,
                self.sample_rate_0 as int,
                self.sample_rate as int,
            ) * self.device_channel <= usize::MAX,
        ensures
            r == self.spec_audio_conversion(len as int),
    {
        let resample = resample_plan(len, self.device_channel, self.sample_rate_0, self.sample_rate);
        let ghost frames = resampled_frames(
            len as int,
            self.device_channel as int,
            self.sample_rate_0 as int,
            self.sample_rate as int,
        );
        assert(0 <= frames <= frames * self.device_channel) by (nonlinear_arith)
            requires
                self.device_channel >= 1,
                frames == (len as int / self.device_channel as int) * self.sample_rate as int
                    / self.sample_rate_0 as int,
                self.sample_rate_0 > 0,
                len >= 0,
        ;
        let resampled = match resample {
            ResamplePlan::Keep => len,
            ResamplePlan::Interpolate { frames } => frames * self.device_channel as usize,
        };
        AudioConversion {
            resample,
            rechannel: rechannel_plan(resampled, self.device_channel, self.encode_channel.count()),
        }
    }

    /// Decides what the audio track receives for the packet `seq` that carries `len` samples.
    pub fn audio_slot(&self, seq: u64, len: usize) -> (r: AudioSlot)
        ensures
            r == self.spec_audio_slot(seq as int, len as int),
    {
        if len == 0 {
            AudioSlot::Empty
        } else if self.is_supported_frame_size(len) {
            AudioSlot::Encode { keyframe: seq % FPS == 0 }
        } else {
            AudioSlot::Silence
        }
    }
}

/// For a configuration derived from a device, every entry of the frame-size table is an
/// exact sample count: rounding `rate * duration` and truncating it agree.
pub proof fn lemma_frame_sizes_exact(c: AudioConfig)
    requires
        c.wf(),
    ensures
        forall|i: int|
            0 <= i < c.frame_sizes().len() ==> #[trigger] c.frame_sizes()[i] * 10000
                == c.encode_rate() * frame_tenths()[i],
{
    let rate = c.encode_rate();
    assert(rate % 400 == 0) by {
        assert(is_opus_rate(c.sample_rate as int));
        assert(c.encode_channel.spec_count() == 1 || c.encode_channel.spec_count() == 2);
    }
    assert forall|i: int| 0 <= i < c.frame_sizes().len() implies #[trigger] c.frame_sizes()[i]
        * 10000 == rate * frame_tenths()[i] by {
        let t = frame_tenths()[i];
        let a = rate / 400;
        let b = t / 25;
        assert(t == 25 * b);
        assert(rate == 400 * a);
        assert(rate * t == 10000 * (a * b)) by (nonlinear_arith)
            requires
                rate == 400 * a,
                t == 25 * b,
        ;
        vstd::arithmetic::div_mod::lemma_div_multiples_vanish(a * b, 10000);
        assert(frame_size_for(rate, t) == a * b);
    }
}

/// What the audio track receives once the encoder has answered: a failed encode falls
/// back to the silent frame.
pub fn after_encode(slot: AudioSlot, encoded: bool) -> (r: AudioSlot)
    ensures
        r == (match slot {
            AudioSlot::Encode { .. } => if encoded {
                slot
            } else {
                AudioSlot::Silence
            },
            _ => slot,
        }),
{
    match slot {
        AudioSlot::Encode { .. } => if encoded {
            slot
        } else {
            AudioSlot::Silence
        },
        _ => slot,
    }
}

} // verus!
