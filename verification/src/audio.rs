//! The capture session: which device is opened, what the device's
//! configuration means for the session, the buffer that capture fills, how
//! the buffer falls into frames, and what a stop returns.
//!
//! The hardware stream belongs to the caller, who also puts the buffer behind
//! the lock it shares with the stream's callback. The library is generic in
//! the type of a buffered sample: the caller gives the function that mixes
//! one frame down to one 16-bit sample.

use vstd::prelude::*;
use vstd::arithmetic::div_mod::lemma_fundamental_div_mod;
use vstd::slice::slice_subrange;
use crate::error::PttError;
use crate::wav::{encode, encoding, WavFormat};

verus! {

/// The sample format that a device announces.
#[derive(Clone, Copy, Debug, PartialEq, Eq, Structural)]
pub enum HardwareFormat {
    /// 32-bit floats.
    F32,
    /// 16-bit signed integers.
    I16,
    /// Any other format.
    Other,
}

/// The sample formats that a session captures.
#[derive(Clone, Copy, Debug, PartialEq, Eq, Structural)]
pub enum SampleFormat {
    Float32,
    Int16,
}

/// The properties of an open capture, fixed when the device is opened.
#[derive(Clone, Copy, Debug, PartialEq, Eq, Structural)]
pub struct CaptureSpec {
    pub channel_count: u16,
    pub sample_rate: u32,
    pub bit_depth: u16,
    pub sample_format: SampleFormat,
}

/// The device to open.
#[derive(Clone, Copy, Debug, PartialEq, Eq, Structural)]
pub enum DeviceChoice {
    /// The host's default input device.
    Default,
    /// The device at this position of the host's list.
    Listed(usize),
}

/// What a device's default configuration means for a session: `None` where
/// the session cannot capture from it, because the format is neither 32-bit
/// float nor 16-bit integer, or because it announces no channel or no rate.
pub open spec fn capture_spec_of(channels: u16, sample_rate: u32, format: HardwareFormat) -> Option<
    CaptureSpec,
> {
    if channels == 0 || sample_rate == 0 {
        None
    } else {
        match format {
            HardwareFormat::F32 => Some(
                CaptureSpec {
                    channel_count: channels,
                    sample_rate,
                    bit_depth: 32,
                    sample_format: SampleFormat::Float32,
                },
            ),
            HardwareFormat::I16 => Some(
                CaptureSpec {
                    channel_count: channels,
                    sample_rate,
                    bit_depth: 16,
                    sample_format: SampleFormat::Int16,
                },
            ),
            HardwareFormat::Other => None,
        }
    }
}

/// The capture properties for a device's default configuration, or
/// `UnsupportedFormat`.
pub fn capture_spec(channels: u16, sample_rate: u32, format: HardwareFormat) -> (spec: Result<
    CaptureSpec,
    PttError,
>)
    ensures
        match capture_spec_of(channels, sample_rate, format) {
            Some(expected) => spec == Ok::<CaptureSpec, PttError>(expected),
            None => spec == Err::<CaptureSpec, PttError>(PttError::UnsupportedFormat),
        },
{
    if channels == 0 || sample_rate == 0 {
        return Err(PttError::UnsupportedFormat);
    }
    match format {
        HardwareFormat::F32 => Ok(
            CaptureSpec {
                channel_count: channels,
                sample_rate,
                bit_depth: 32,
                sample_format: SampleFormat::Float32,
            },
        ),
        HardwareFormat::I16 => Ok(
            CaptureSpec {
                channel_count: channels,
                sample_rate,
                bit_depth: 16,
                sample_format: SampleFormat::Int16,
            },
        ),
        HardwareFormat::Other => Err(PttError::UnsupportedFormat),
    }
}

/// Picks the device to open among the host's input devices, given by name in
/// the host's order.
///
/// With a name, the first device of that name is chosen, and `DeviceNotFound`
/// is returned where there is none. Without one, the default device is
/// chosen, and `NoDefaultDevice` is returned where the host has none.
pub fn resolve_device(names: &Vec<String>, wanted: Option<&String>, has_default: bool) -> (choice:
    Result<DeviceChoice, PttError>)
    ensures
        match choice {
            Ok(DeviceChoice::Listed(position)) => {
                &&& wanted matches Some(name)
                &&& position < names@.len()
                &&& names@[position as int]@ == name@
                &&& forall|j: int| 0 <= j < position ==> (#[trigger] names@[j])@ != name@
            },
            Ok(DeviceChoice::Default) => wanted is None && has_default,
            Err(PttError::DeviceNotFound) => {
                &&& wanted matches Some(name)
                &&& forall|j: int| 0 <= j < names@.len() ==> (#[trigger] names@[j])@ != name@
            },
            Err(PttError::NoDefaultDevice) => wanted is None && !has_default,
            Err(_) => false,
        },
{
    match wanted {
        None => if has_default {
            Ok(DeviceChoice::Default)
        } else {
            Err(PttError::NoDefaultDevice)
        },
        Some(name) => {
            let mut position: usize = 0;
            while position < names.len()
                invariant
                    wanted == Some(name),
                    position <= names@.len(),
                    forall|j: int| 0 <= j < position ==> (#[trigger] names@[j])@ != name@,
                decreases names@.len() - position,
            {
                if names[position] == *name {
                    return Ok(DeviceChoice::Listed(position));
                }
                position += 1;
            }
            Err(PttError::DeviceNotFound)
        },
    }
}

/// The `i`-th frame of a buffer of interleaved samples: one sample for each
/// channel.
pub open spec fn frame<T>(samples: Seq<T>, channels: int, i: int) -> Seq<T> {
    samples.subrange(i * channels, (i + 1) * channels)
}

/// The complete frames of a buffer. Its last samples, where they do not fill
/// a frame, belong to none.
pub open spec fn frames<T>(samples: Seq<T>, channels: int) -> Seq<Seq<T>>
    recommends
        channels > 0,
{
    Seq::new((samples.len() as int / channels) as nat, |i: int| frame(samples, channels, i))
}

/// Whether `value` is what `mix` returns for `frame`.
pub open spec fn mixes<T, F: Fn(&[T]) -> i16>(mix: F, frame: Seq<T>, value: i16) -> bool {
    exists|slice: &[T]| slice@ == frame && call_ensures(mix, (slice,), value)
}

/// Whether `mono` holds, frame by frame, what `mix` returns for `frames`.
pub open spec fn mixed<T, F: Fn(&[T]) -> i16>(mix: F, frames: Seq<Seq<T>>, mono: Seq<i16>) -> bool {
    &&& mono.len() == frames.len()
    &&& forall|i: int| 0 <= i < frames.len() ==> mixes(mix, #[trigger] frames[i], mono[i])
}

/// Every complete frame lies inside the buffer, and fewer samples than one
/// frame holds are left behind the last.
pub proof fn lemma_frames_fit(total: int, channels: int, i: int)
    requires
        total >= 0,
        channels > 0,
        0 <= i < total / channels,
    ensures
        0 <= i * channels,
        (i + 1) * channels <= total,
        (i + 1) * channels == i * channels + channels,
        total - (total / channels) * channels < channels,
{
    let count = total / channels;
    lemma_fundamental_div_mod(total, channels);
    assert((i + 1) * channels == i * channels + channels) by (nonlinear_arith);
    assert(0 <= i * channels) by (nonlinear_arith)
        requires
            i >= 0,
            channels > 0,
    ;
    assert((i + 1) * channels <= count * channels) by (nonlinear_arith)
        requires
            i + 1 <= count,
            channels > 0,
    ;
    assert(count * channels == channels * count) by (nonlinear_arith);
}

/// A buffer of `n` stereo frames has `n` frames, and the `i`-th holds the
/// samples at `2 * i` and `2 * i + 1`.
pub proof fn lemma_stereo_frames<T>(samples: Seq<T>, n: int)
    requires
        samples.len() == 2 * n,
    ensures
        frames(samples, 2).len() == n,
        forall|i: int|
            0 <= i < n ==> #[trigger] frames(samples, 2)[i] == seq![
                samples[2 * i],
                samples[2 * i + 1],
            ],
{
    assert forall|i: int| 0 <= i < n implies #[trigger] frames(samples, 2)[i] == seq![
        samples[2 * i],
        samples[2 * i + 1],
    ] by {
        assert(frames(samples, 2)[i] =~= seq![samples[2 * i], samples[2 * i + 1]]);
    }
}

/// A mono buffer has one frame for each sample, and the frame holds that
/// sample alone.
pub proof fn lemma_mono_frames<T>(samples: Seq<T>)
    ensures
        frames(samples, 1).len() == samples.len(),
        forall|i: int|
            0 <= i < samples.len() ==> #[trigger] frames(samples, 1)[i] == seq![samples[i]],
{
    assert forall|i: int| 0 <= i < samples.len() implies #[trigger] frames(samples, 1)[i]
        == seq![samples[i]] by {
        assert(frames(samples, 1)[i] =~= seq![samples[i]]);
    }
}

/// Where `mix` returns `value_of` of the frame it is given, the samples mixed
/// from a buffer are `value_of` of its frames, one for each frame and in
/// their order.
pub proof fn lemma_mixed_by_function<T, F: Fn(&[T]) -> i16>(
    mix: F,
    value_of: spec_fn(Seq<T>) -> i16,
    samples: Seq<T>,
    channels: int,
    mono: Seq<i16>,
)
    requires
        channels > 0,
        mixed(mix, frames(samples, channels), mono),
        forall|slice: &[T], value: i16|
            call_ensures(mix, (slice,), value) ==> value == value_of(slice@),
    ensures
        mono.len() == samples.len() as int / channels,
        forall|i: int|
            0 <= i < mono.len() ==> #[trigger] mono[i] == value_of(frame(samples, channels, i)),
{
    assert forall|i: int| 0 <= i < mono.len() implies #[trigger] mono[i] == value_of(
        frame(samples, channels, i),
    ) by {
        assert(mixes(mix, frames(samples, channels)[i], mono[i]));
    }
}

/// Mixes a buffer of interleaved samples down to mono: one call of `mix` for
/// each complete frame, in order. A trailing partial frame is dropped.
pub fn downmix<T, F: Fn(&[T]) -> i16>(samples: &Vec<T>, channels: u16, mix: &F) -> (mono: Vec<i16>)
    requires
        channels >= 1,
        forall|slice: &[T]| slice@.len() == channels ==> call_requires(*mix, (slice,)),
    ensures
        mixed(*mix, frames(samples@, channels as int), mono@),
{
    let width: usize = channels as usize;
    let total: usize = samples.len();
    let count: usize = total / width;
    let all = samples.as_slice();
    let mut mono: Vec<i16> = Vec::new();
    let mut i: usize = 0;
    while i < count
        invariant
            width == channels,
            width >= 1,
            total == samples@.len(),
            all@ == samples@,
            count == total as int / width as int,
            i <= count,
            mono@.len() == i,
            forall|slice: &[T]| slice@.len() == channels ==> call_requires(*mix, (slice,)),
            forall|j: int|
                0 <= j < i ==> mixes(
                    *mix,
                    #[trigger] frames(samples@, channels as int)[j],
                    mono@[j],
                ),
        decreases count - i,
    {
        proof {
            lemma_frames_fit(total as int, width as int, i as int);
        }
        let start: usize = i * width;
        let slice = slice_subrange(all, start, start + width);
        let value = mix(slice);
        proof {
            assert(slice@ == frames(samples@, channels as int)[i as int]);
        }
        mono.push(value);
        i += 1;
    }
    mono
}

/// The samples captured so far, in the order and the interleaving in which
/// the device delivered them. Capture only ever appends to it.
#[derive(Debug)]
pub struct SampleBuffer<T> {
    samples: Vec<T>,
}

impl<T> View for SampleBuffer<T> {
    type V = Seq<T>;

    closed spec fn view(&self) -> Seq<T> {
        self.samples@
    }
}

impl<T: Copy> SampleBuffer<T> {
    /// An empty buffer.
    pub fn new() -> (buffer: SampleBuffer<T>)
        ensures
            buffer@ == Seq::<T>::empty(),
    {
        SampleBuffer { samples: Vec::new() }
    }

    /// The number of samples in the buffer.
    pub fn len(&self) -> (len: usize)
        ensures
            len == self@.len(),
    {
        self.samples.len()
    }

    /// The samples in the buffer.
    pub fn samples(&self) -> (samples: &Vec<T>)
        ensures
            samples@ == self@,
    {
        &self.samples
    }

    /// Appends what the device delivered behind what is there.
    pub fn append(&mut self, data: &[T])
        ensures
            final(self)@ == old(self)@ + data@,
    {
        let mut i: usize = 0;
        while i < data.len()
            invariant
                i <= data@.len(),
                self@ == old(self)@ + data@.take(i as int),
            decreases data@.len() - i,
        {
            self.samples.push(data[i]);
            i += 1;
            assert(data@.take(i as int) =~= data@.take(i - 1).push(data@[i - 1]));
        }
        assert(data@.take(data@.len() as int) =~= data@);
    }

    /// Empties the buffer.
    pub fn clear(&mut self)
        ensures
            final(self)@ == Seq::<T>::empty(),
    {
        self.samples.clear();
    }
}

/// A capture session and the properties of its device.
#[derive(Debug)]
pub struct AudioRecorder {
    capturing: bool,
    spec: CaptureSpec,
}

/// An `AudioRecorder` as a mathematical value.
pub struct Session {
    pub capturing: bool,
    pub spec: CaptureSpec,
}

impl View for AudioRecorder {
    type V = Session;

    closed spec fn view(&self) -> Session {
        Session { capturing: self.capturing, spec: self.spec }
    }
}

impl AudioRecorder {
    #[verifier::type_invariant]
    spec fn usable(&self) -> bool {
        self.spec.channel_count >= 1 && self.spec.sample_rate >= 1
    }

    /// The properties that a session has before its first device is opened:
    /// mono 32-bit floats at 16 kHz.
    pub open spec fn initial_spec() -> CaptureSpec {
        CaptureSpec {
            channel_count: 1,
            sample_rate: 16000,
            bit_depth: 32,
            sample_format: SampleFormat::Float32,
        }
    }

    /// An idle session.
    pub fn new() -> (recorder: AudioRecorder)
        ensures
            recorder@ == (Session { capturing: false, spec: Self::initial_spec() }),
    {
        AudioRecorder {
            capturing: false,
            spec: CaptureSpec {
                channel_count: 1,
                sample_rate: 16000,
                bit_depth: 32,
                sample_format: SampleFormat::Float32,
            },
        }
    }

    /// Whether a capture is open.
    pub fn is_capturing(&self) -> (capturing: bool)
        ensures
            capturing == self@.capturing,
    {
        self.capturing
    }

    /// The properties of the device opened last.
    pub fn spec(&self) -> (spec: CaptureSpec)
        ensures
            spec == self@.spec,
            spec.channel_count >= 1,
            spec.sample_rate >= 1,
    {
        proof {
            use_type_invariant(self);
        }
        self.spec
    }

    /// Opens the session on a device with the given default configuration.
    ///
    /// Fails with `AlreadyCapturing` where a capture is open, and with
    /// `UnsupportedFormat` where the session cannot capture from the device;
    /// either way the session is left as it was.
    pub fn start(&mut self, channels: u16, sample_rate: u32, format: HardwareFormat) -> (started:
        Result<(), PttError>)
        ensures
            old(self)@.capturing ==> started == Err::<(), PttError>(PttError::AlreadyCapturing)
                && final(self)@ == old(self)@,
            !old(self)@.capturing ==> match capture_spec_of(channels, sample_rate, format) {
                Some(spec) => {
                    &&& started == Ok::<(), PttError>(())
                    &&& final(self)@ == (Session { capturing: true, spec })
                },
                None => {
                    &&& started == Err::<(), PttError>(PttError::UnsupportedFormat)
                    &&& final(self)@ == old(self)@
                },
            },
    {
        if self.capturing {
            return Err(PttError::AlreadyCapturing);
        }
        match capture_spec(channels, sample_rate, format) {
            Ok(spec) => {
                *self = AudioRecorder { capturing: true, spec };
                Ok(())
            },
            Err(error) => Err(error),
        }
    }

    /// The format of the payload that a stop produces: mono 16-bit PCM at the
    /// rate of the device.
    pub open spec fn payload_format(session: Session) -> WavFormat {
        WavFormat::spec_mono16(session.spec.sample_rate)
    }

    /// Ends the session and encodes its samples, already mixed down to mono.
    ///
    /// The session is idle afterwards, whatever is returned. Fails with
    /// `EncodeError` where the samples cannot be encoded.
    pub fn finish(&mut self, mono: &Vec<i16>) -> (payload: Result<Vec<u8>, PttError>)
        ensures
            final(self)@ == (Session { capturing: false, spec: old(self)@.spec }),
            match encoding(Self::payload_format(old(self)@), mono@) {
                Some(bytes) => payload matches Ok(p) && p@ == bytes,
                None => payload == Err::<Vec<u8>, PttError>(PttError::EncodeError),
            },
    {
        proof {
            use_type_invariant(&*self);
        }
        let spec = self.spec;
        *self = AudioRecorder { capturing: false, spec };
        let format = WavFormat::mono16(spec.sample_rate);
        encode(&format, mono)
    }

    /// Ends the session: mixes the buffer down to mono with `mix`, one frame
    /// of `channel_count` samples at a time and without the trailing partial
    /// frame, encodes the result, and empties the buffer.
    ///
    /// The session is idle afterwards, whatever is returned. Fails with
    /// `EncodeError` where the samples cannot be encoded; the buffer is then
    /// left as it was.
    pub fn stop<T: Copy, F: Fn(&[T]) -> i16>(
        &mut self,
        buffer: &mut SampleBuffer<T>,
        mix: &F,
    ) -> (payload: Result<Vec<u8>, PttError>)
        requires
            forall|slice: &[T]|
                slice@.len() == old(self)@.spec.channel_count ==> call_requires(*mix, (slice,)),
        ensures
            final(self)@ == (Session { capturing: false, spec: old(self)@.spec }),
            exists|mono: Seq<i16>|
                {
                    &&& #[trigger] mixed(
                        *mix,
                        frames(old(buffer)@, old(self)@.spec.channel_count as int),
                        mono,
                    )
                    &&& match encoding(Self::payload_format(old(self)@), mono) {
                        Some(bytes) => {
                            &&& payload matches Ok(p)
                            &&& p@ == bytes
                            &&& final(buffer)@ == Seq::<T>::empty()
                        },
                        None => {
                            &&& payload == Err::<Vec<u8>, PttError>(PttError::EncodeError)
                            &&& final(buffer)@ == old(buffer)@
                        },
                    }
                },
    {
        proof {
            use_type_invariant(&*self);
        }
        let channels = self.spec.channel_count;
        let mono = downmix(buffer.samples(), channels, mix);
        let payload = self.finish(&mono);
        if payload.is_ok() {
            buffer.clear();
        }
        proof {
            assert(mixed(*mix, frames(old(buffer)@, channels as int), mono@));
        }
        payload
    }
}

} // verus!
