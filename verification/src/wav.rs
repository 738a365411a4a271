//! WAV containers: the format descriptor that the rest of the library works
//! with, and the two calls into `hound` that write and read a container.
//!
//! The bytes of a container are `hound`'s business. The library names what
//! `hound` returns (`wav_encoding`, `wav_decoding`) and proves its own logic
//! against those names.

use vstd::prelude::*;
use crate::error::PttError;

verus! {

/// `hound::Error`, carried from the two wrappers to the place where it is
/// mapped to `PttError::EncodeError`. Nothing is known of its contents.
#[verifier::external_type_specification]
#[verifier::external_body]
pub struct ExHoundError(hound::Error);

/// Whether the samples of a container are integers or IEEE floats.
#[derive(Clone, Copy, Debug, PartialEq, Eq, Structural)]
pub enum SampleKind {
    Int,
    Float,
}

/// The audio properties that a WAV container declares.
#[derive(Clone, Copy, Debug, PartialEq, Eq, Structural)]
pub struct WavFormat {
    pub channels: u16,
    pub sample_rate: u32,
    pub bits_per_sample: u16,
    pub sample_kind: SampleKind,
}

/// What `hound` writes for `samples` under `format`: the bytes of the
/// container, or `None` where the writer reports an error.
pub uninterp spec fn wav_encoding(format: WavFormat, samples: Seq<i16>) -> Option<Seq<u8>>;

/// What `hound` reads out of `bytes` as 16-bit samples: the declared format
/// and the interleaved samples, or `None` where the reader reports an error.
pub uninterp spec fn wav_decoding(bytes: Seq<u8>) -> Option<(WavFormat, Seq<i16>)>;

impl WavFormat {
    /// The number of bytes that one stored sample takes.
    pub open spec fn sample_bytes(self) -> int {
        self.bits_per_sample as int / 8
    }

    /// The bytes of header that follow the RIFF length field: 36 for the plain
    /// PCM header, 60 for the extensible one that more than two channels or
    /// more than 16 bits call for.
    pub open spec fn header_bytes(self) -> int {
        if self.channels > 2 || self.bits_per_sample > 16 {
            60
        } else {
            36
        }
    }

    /// The formats that the writer can be given: a depth it supports, at least
    /// one channel, a non-zero rate, floats only at 32 bits, and a byte rate
    /// that fits the 32-bit header field.
    pub open spec fn writable(self) -> bool {
        &&& self.channels >= 1
        &&& self.sample_rate >= 1
        &&& (self.bits_per_sample == 8 || self.bits_per_sample == 16
            || self.bits_per_sample == 24 || self.bits_per_sample == 32)
        &&& (self.sample_kind == SampleKind::Float ==> self.bits_per_sample == 32)
        &&& self.sample_rate as int * self.sample_bytes() * self.channels as int <= u32::MAX as int
    }

    /// Whether `count` samples and the header fit the 32-bit length fields of
    /// a container.
    pub open spec fn holds(self, count: int) -> bool {
        count * self.sample_bytes() + self.header_bytes() <= u32::MAX as int
    }

    /// Mono, 16-bit signed PCM at `sample_rate`: the format of every payload
    /// that a capture produces.
    pub open spec fn spec_mono16(sample_rate: u32) -> WavFormat {
        WavFormat { channels: 1, sample_rate, bits_per_sample: 16, sample_kind: SampleKind::Int }
    }

    #[verifier::when_used_as_spec(spec_mono16)]
    pub fn mono16(sample_rate: u32) -> (format: WavFormat)
        ensures
            format == Self::spec_mono16(sample_rate),
    {
        WavFormat { channels: 1, sample_rate, bits_per_sample: 16, sample_kind: SampleKind::Int }
    }

    /// Tests `writable`.
    pub fn is_writable(&self) -> (ok: bool)
        ensures
            ok == self.writable(),
    {
        let depth_ok = self.bits_per_sample == 8 || self.bits_per_sample == 16
            || self.bits_per_sample == 24 || self.bits_per_sample == 32;
        if self.channels == 0 || self.sample_rate == 0 || !depth_ok {
            return false;
        }
        if self.sample_kind == SampleKind::Float && self.bits_per_sample != 32 {
            return false;
        }
        let width: u64 = (self.bits_per_sample / 8) as u64;
        assert(width * self.channels <= 0x4_0000) by (nonlinear_arith)
            requires
                width <= 4,
                self.channels <= 0xffff,
        ;
        let per_frame: u64 = width * (self.channels as u64);
        assert(per_frame == self.sample_bytes() * self.channels as int);
        assert(self.sample_rate as int * self.sample_bytes() * self.channels as int
            == self.sample_rate as int * (self.sample_bytes() * self.channels as int))
            by (nonlinear_arith);
        assert(self.sample_rate as int * per_frame as int <= 0xffff_ffff * 0x4_0000)
            by (nonlinear_arith)
            requires
                self.sample_rate <= 0xffff_ffff,
                per_frame <= 0x4_0000,
        ;
        (self.sample_rate as u64) * per_frame <= 0xffff_ffff
    }

    /// Tests `holds` for a sample count.
    pub fn can_hold(&self, count: usize) -> (ok: bool)
        ensures
            ok == self.holds(count as int),
    {
        let width: u64 = (self.bits_per_sample / 8) as u64;
        let header: u64 = if self.channels > 2 || self.bits_per_sample > 16 {
            60
        } else {
            36
        };
        if width == 0 {
            assert(count as int * self.sample_bytes() == 0) by (nonlinear_arith)
                requires
                    self.sample_bytes() == 0,
            ;
            return true;
        }
        if count > 0xffff_ffff {
            assert(count as int * self.sample_bytes() >= count as int) by (nonlinear_arith)
                requires
                    self.sample_bytes() >= 1,
                    count >= 0,
            ;
            return false;
        }
        assert(count as int * width as int <= 0xffff_ffff * 0x2000) by (nonlinear_arith)
            requires
                count <= 0xffff_ffff,
                width <= 0x2000,
        ;
        (count as u64) * width + header <= 0xffff_ffff
    }
}

/// Writes a container with `hound`: `WavWriter::new` over a cursor on a fresh
/// vector, `write_sample` for each sample in order, then `finalize`.
///
/// Trusted: the outcome is the one that `wav_encoding` names, a function of
/// the format and the samples alone. The `requires` keeps out what the writer
/// panics on: an unsupported depth with no bytes per sample, zero channels or
/// a zero rate (it divides by both), floats at another depth than 32, and
/// length fields that overflow 32 bits.
#[verifier::external_body]
fn hound_write(format: &WavFormat, samples: &Vec<i16>) -> (written: Result<Vec<u8>, hound::Error>)
    requires
        format.writable(),
        format.holds(samples@.len() as int),
    ensures
        written matches Ok(bytes) ==> wav_encoding(*format, samples@) == Some(bytes@),
        written is Err ==> wav_encoding(*format, samples@) is None,
{
    let sample_format = match format.sample_kind {
        SampleKind::Int => hound::SampleFormat::Int,
        SampleKind::Float => hound::SampleFormat::Float,
    };
    let (channels, sample_rate, bits_per_sample) =
        (format.channels, format.sample_rate, format.bits_per_sample);
    let spec = hound::WavSpec { channels, sample_rate, bits_per_sample, sample_format };
    let mut bytes: Vec<u8> = Vec::new();
    let mut writer = hound::WavWriter::new(std::io::Cursor::new(&mut bytes), spec)?;
    for sample in samples.iter() {
        writer.write_sample(*sample)?;
    }
    writer.finalize()?;
    Ok(bytes)
}

/// Reads a container with `hound`: `WavReader::new` over a cursor on the
/// bytes, `spec`, then every item of `samples::<i16>()` up to the first error.
///
/// Trusted: the outcome is the one that `wav_decoding` names, a function of
/// the bytes alone. The reader returns an error on what it cannot read and
/// panics on nothing, so there is no `requires`.
#[verifier::external_body]
fn hound_read(bytes: &Vec<u8>) -> (read: Result<(WavFormat, Vec<i16>), hound::Error>)
    ensures
        read matches Ok(content) ==> wav_decoding(bytes@) == Some((content.0, content.1@)),
        read is Err ==> wav_decoding(bytes@) is None,
{
    let mut reader = hound::WavReader::new(std::io::Cursor::new(bytes.as_slice()))?;
    let spec = reader.spec();
    let samples = reader.samples::<i16>().collect::<Result<Vec<i16>, hound::Error>>()?;
    let sample_kind = match spec.sample_format {
        hound::SampleFormat::Int => SampleKind::Int,
        hound::SampleFormat::Float => SampleKind::Float,
    };
    let (channels, sample_rate, bits_per_sample) =
        (spec.channels, spec.sample_rate, spec.bits_per_sample);
    Ok((WavFormat { channels, sample_rate, bits_per_sample, sample_kind }, samples))
}

/// What `encode` returns, given what the writer would return: nothing is
/// handed to the writer unless the format is writable and the samples fit.
pub open spec fn encoding(format: WavFormat, samples: Seq<i16>) -> Option<Seq<u8>> {
    if format.writable() && format.holds(samples.len() as int) {
        wav_encoding(format, samples)
    } else {
        None
    }
}

/// Maps the writer's outcome to the library's: the bytes as they are, any
/// error to `EncodeError`.
pub fn encoded(written: Result<Vec<u8>, hound::Error>) -> (payload: Result<Vec<u8>, PttError>)
    ensures
        written matches Ok(bytes) ==> payload == Ok::<Vec<u8>, PttError>(bytes),
        written is Err ==> payload == Err::<Vec<u8>, PttError>(PttError::EncodeError),
{
    match written {
        Ok(bytes) => Ok(bytes),
        Err(_) => Err(PttError::EncodeError),
    }
}

/// Maps the reader's outcome to the library's: format and samples as they
/// are, any error to `EncodeError`.
pub fn decoded(read: Result<(WavFormat, Vec<i16>), hound::Error>) -> (content: Result<
    (WavFormat, Vec<i16>),
    PttError,
>)
    ensures
        read matches Ok(c) ==> content == Ok::<(WavFormat, Vec<i16>), PttError>(c),
        read is Err ==> content == Err::<(WavFormat, Vec<i16>), PttError>(PttError::EncodeError),
{
    match read {
        Ok(c) => Ok(c),
        Err(_) => Err(PttError::EncodeError),
    }
}

/// Encodes `samples` as a WAV container of the given format.
///
/// Fails with `EncodeError` where the format is not writable, where the
/// samples do not fit a container, and where the writer reports an error.
pub fn encode(format: &WavFormat, samples: &Vec<i16>) -> (payload: Result<Vec<u8>, PttError>)
    ensures
        match encoding(*format, samples@) {
            Some(bytes) => payload matches Ok(p) && p@ == bytes,
            None => payload == Err::<Vec<u8>, PttError>(PttError::EncodeError),
        },
{
    if !format.is_writable() || !format.can_hold(samples.len()) {
        return Err(PttError::EncodeError);
    }
    encoded(hound_write(format, samples))
}

/// Decodes a WAV container into its format and its samples.
///
/// Fails with `EncodeError` where the reader reports an error.
pub fn decode(bytes: &Vec<u8>) -> (content: Result<(WavFormat, Vec<i16>), PttError>)
    ensures
        match wav_decoding(bytes@) {
            Some(c) => content matches Ok(got) && got.0 == c.0 && got.1@ == c.1,
            None => content == Err::<(WavFormat, Vec<i16>), PttError>(PttError::EncodeError),
        },
{
    decoded(hound_read(bytes))
}

} // verus!
