//! Sample formats of audio data and their raw `AVSampleFormat` codes.
use vstd::prelude::*;
use vstd::layout::{size_of, layout_of_primitives};

verus! {

/// How the channels of a frame are laid out in memory.
#[derive(Clone, Copy, Debug, PartialEq, Eq, Structural)]
pub enum Type {
    /// All channels interleaved in one buffer.
    Packed,
    /// One buffer per channel.
    Planar,
}

/// The sample format of audio data.
#[derive(Clone, Copy, Debug, PartialEq, Eq, Structural)]
pub enum Sample {
    /// No format: what a frame holds before one is set.
    NoFormat,
    U8(Type),
    I16(Type),
    I32(Type),
    F32(Type),
    F64(Type),
}

/// The raw `AVSampleFormat` code of a format.
pub open spec fn spec_raw(s: Sample) -> i32 {
    match s {
        Sample::NoFormat => -1i32,
        Sample::U8(Type::Packed) => 0,
        Sample::I16(Type::Packed) => 1,
        Sample::I32(Type::Packed) => 2,
        Sample::F32(Type::Packed) => 3,
        Sample::F64(Type::Packed) => 4,
        Sample::U8(Type::Planar) => 5,
        Sample::I16(Type::Planar) => 6,
        Sample::I32(Type::Planar) => 7,
        Sample::F32(Type::Planar) => 8,
        Sample::F64(Type::Planar) => 9,
    }
}

/// The format that a raw `AVSampleFormat` code names; codes without a format name `NoFormat`.
pub open spec fn spec_from_raw(raw: i32) -> Sample {
    if raw == 0 {
        Sample::U8(Type::Packed)
    } else if raw == 1 {
        Sample::I16(Type::Packed)
    } else if raw == 2 {
        Sample::I32(Type::Packed)
    } else if raw == 3 {
        Sample::F32(Type::Packed)
    } else if raw == 4 {
        Sample::F64(Type::Packed)
    } else if raw == 5 {
        Sample::U8(Type::Planar)
    } else if raw == 6 {
        Sample::I16(Type::Planar)
    } else if raw == 7 {
        Sample::I32(Type::Planar)
    } else if raw == 8 {
        Sample::F32(Type::Planar)
    } else if raw == 9 {
        Sample::F64(Type::Planar)
    } else {
        Sample::NoFormat
    }
}

/// Whether the format keeps one buffer per channel.
pub open spec fn spec_is_planar(s: Sample) -> bool {
    match s {
        Sample::U8(t) | Sample::I16(t) | Sample::I32(t) | Sample::F32(t) | Sample::F64(t) => t
            == Type::Planar,
        Sample::NoFormat => false,
    }
}

/// The size in bytes of one sample of one channel; zero for no format.
pub open spec fn spec_bytes(s: Sample) -> int {
    match s {
        Sample::NoFormat => 0,
        Sample::U8(_) => 1,
        Sample::I16(_) => 2,
        Sample::I32(_) => 4,
        Sample::F32(_) => 4,
        Sample::F64(_) => 8,
    }
}

impl Sample {
    /// Whether the format keeps one buffer per channel (no format is not planar).
    pub fn is_planar(&self) -> (r: bool)
        ensures
            r == spec_is_planar(*self),
    {
        match self {
            Sample::U8(t) | Sample::I16(t) | Sample::I32(t) | Sample::F32(t) | Sample::F64(t) => {
                match t {
                    Type::Planar => true,
                    Type::Packed => false,
                }
            },
            Sample::NoFormat => false,
        }
    }

    /// Whether the format interleaves all channels in one buffer; the negation of `is_planar`.
    pub fn is_packed(&self) -> (r: bool)
        ensures
            r == !spec_is_planar(*self),
    {
        !self.is_planar()
    }

    /// The size in bytes of one sample of one channel; zero for no format.
    pub fn bytes(&self) -> (r: usize)
        ensures
            r == spec_bytes(*self),
    {
        match self {
            Sample::NoFormat => 0,
            Sample::U8(_) => 1,
            Sample::I16(_) => 2,
            Sample::I32(_) => 4,
            Sample::F32(_) => 4,
            Sample::F64(_) => 8,
        }
    }

    /// The format named by a raw `AVSampleFormat` code; codes that name no format give `NoFormat`.
    pub fn from_raw(raw: i32) -> (r: Sample)
        ensures
            r == spec_from_raw(raw),
    {
        match raw {
            0 => Sample::U8(Type::Packed),
            1 => Sample::I16(Type::Packed),
            2 => Sample::I32(Type::Packed),
            3 => Sample::F32(Type::Packed),
            4 => Sample::F64(Type::Packed),
            5 => Sample::U8(Type::Planar),
            6 => Sample::I16(Type::Planar),
            7 => Sample::I32(Type::Planar),
            8 => Sample::F32(Type::Planar),
            9 => Sample::F64(Type::Planar),
            _ => Sample::NoFormat,
        }
    }

    /// The raw `AVSampleFormat` code of the format.
    pub fn raw(&self) -> (r: i32)
        ensures
            r == spec_raw(*self),
    {
        match self {
            Sample::NoFormat => -1i32,
            Sample::U8(Type::Packed) => 0,
            Sample::I16(Type::Packed) => 1,
            Sample::I32(Type::Packed) => 2,
            Sample::F32(Type::Packed) => 3,
            Sample::F64(Type::Packed) => 4,
            Sample::U8(Type::Planar) => 5,
            Sample::I16(Type::Planar) => 6,
            Sample::I32(Type::Planar) => 7,
            Sample::F32(Type::Planar) => 8,
            Sample::F64(Type::Planar) => 9,
        }
    }
}

/// Every format survives the trip through its raw code.
pub proof fn lemma_from_raw_of_raw(s: Sample)
    ensures
        spec_from_raw(spec_raw(s)) == s,
{
}

/// Every code from -1 to 9 survives the trip through its format; every other code names none.
pub proof fn lemma_raw_of_from_raw(raw: i32)
    ensures
        -1 <= raw <= 9 ==> spec_raw(spec_from_raw(raw)) == raw,
        !(-1 <= raw <= 9) ==> spec_from_raw(raw) == Sample::NoFormat,
{
}

/// A sample takes the width of its element type, whatever its packing: nothing for no
/// format, one byte for `U8`, two for `I16`, four for the 32-bit `I32` and `F32`, and eight
/// for the 64-bit `F64`.
pub proof fn law_bytes_is_sample_width(t: Type)
    ensures
        spec_bytes(Sample::NoFormat) == 0,
        spec_bytes(Sample::U8(t)) == size_of::<u8>(),
        spec_bytes(Sample::I16(t)) == size_of::<i16>(),
        spec_bytes(Sample::I32(t)) == size_of::<i32>(),
        spec_bytes(Sample::F32(t)) == size_of::<u32>(),
        spec_bytes(Sample::F64(t)) == size_of::<u64>(),
{
    broadcast use layout_of_primitives;

}

/// A format is planar exactly when its packing is `Planar`; no format is not planar. The
/// planar formats are exactly those with the codes 5 to 9.
pub proof fn law_planar_is_its_packing(t: Type, s: Sample)
    ensures
        !spec_is_planar(Sample::NoFormat),
        spec_is_planar(Sample::U8(t)) == (t == Type::Planar),
        spec_is_planar(Sample::I16(t)) == (t == Type::Planar),
        spec_is_planar(Sample::I32(t)) == (t == Type::Planar),
        spec_is_planar(Sample::F32(t)) == (t == Type::Planar),
        spec_is_planar(Sample::F64(t)) == (t == Type::Planar),
        spec_is_planar(s) <==> 5 <= spec_raw(s) <= 9,
{
}

/// The codes: -1 for no format; 0 to 4 for the packed formats in order of element type
/// (`U8`, `I16`, `I32`, `F32`, `F64`); each planar format five above its packed one.
pub proof fn law_raw_codes(s: Sample)
    ensures
        spec_raw(Sample::NoFormat) == -1,
        spec_raw(Sample::U8(Type::Packed)) == 0,
        spec_raw(Sample::U8(Type::Packed)) < spec_raw(Sample::I16(Type::Packed)) < spec_raw(
            Sample::I32(Type::Packed),
        ) < spec_raw(Sample::F32(Type::Packed)) < spec_raw(Sample::F64(Type::Packed)) == 4,
        spec_raw(Sample::U8(Type::Planar)) == spec_raw(Sample::U8(Type::Packed)) + 5,
        spec_raw(Sample::I16(Type::Planar)) == spec_raw(Sample::I16(Type::Packed)) + 5,
        spec_raw(Sample::I32(Type::Planar)) == spec_raw(Sample::I32(Type::Packed)) + 5,
        spec_raw(Sample::F32(Type::Planar)) == spec_raw(Sample::F32(Type::Packed)) + 5,
        spec_raw(Sample::F64(Type::Planar)) == spec_raw(Sample::F64(Type::Packed)) + 5,
{
}

} // verus!
