//! Audio frames: the raw fields of a frame and the bytes of its sample planes.
use vstd::prelude::*;
use vstd::string::StringExecFns;
use vstd::layout::{size_of, layout_of_primitives};
use crate::util::channel_layout::{
    ChannelLayout,
    ALL_CHANNELS,
    count_ones,
    nb_channels,
    lemma_count_ones_u64,
    lemma_count_ones_positive,
};
use crate::util::format::Sample as SampleFormat;
use crate::util::format::sample::{
    Type,
    spec_raw,
    spec_from_raw,
    spec_is_planar,
    spec_bytes,
    lemma_from_raw_of_raw,
    law_bytes_is_sample_width,
};

verus! {

/// The number of plane pointers that a frame keeps in its fixed table.
pub const NUM_DATA_POINTERS: usize = 8;

/// The largest value of a C `int`.
pub const INT_MAX: i32 = 0x7fff_ffff;

/// What an audio frame holds: its raw fields and the bytes of each allocated plane.
#[verifier::ext_equal]
pub struct AudioView {
    /// The raw sample format code; -1 for none.
    pub format: i32,
    /// The raw channel layout bits.
    pub channel_layout: u64,
    /// The raw channel count.
    pub channels: i32,
    /// The raw sample rate.
    pub rate: i32,
    /// The raw number of samples per channel.
    pub samples: i32,
    /// The size in bytes of each plane; 0 while no buffer is allocated.
    pub linesize: i32,
    /// The bytes of the allocated planes.
    pub data: Seq<Seq<u8>>,
}

/// A frame as it is right after allocation: no format, no buffer, every count zero.
pub open spec fn empty_view() -> AudioView {
    AudioView {
        format: -1i32,
        channel_layout: 0,
        channels: 0,
        rate: 0,
        samples: 0,
        linesize: 0,
        data: Seq::empty(),
    }
}

/// Whether the frame's format keeps one plane per channel.
pub open spec fn view_is_planar(v: AudioView) -> bool {
    spec_is_planar(spec_from_raw(v.format))
}

/// The number of planes of a frame: none without a buffer, one for a packed format,
/// one per channel for a planar format.
pub open spec fn spec_planes(v: AudioView) -> int {
    if v.linesize == 0 {
        0
    } else if !view_is_planar(v) {
        1
    } else {
        (v.channels as u16) as int
    }
}

/// The size in bytes of each plane of a buffer for `samples` samples of `channels`
/// channels in format `s`, with no padding; `None` where no such buffer can be made
/// (no format, no samples, no channels, or a total size beyond `INT_MAX`).
pub open spec fn spec_line_size(s: SampleFormat, channels: int, samples: int) -> Option<int> {
    let size = spec_bytes(s);
    if size == 0 || samples <= 0 || channels <= 0 {
        None
    } else if channels * samples > (INT_MAX - channels) / size {
        None
    } else if spec_is_planar(s) {
        Some(samples * size)
    } else {
        Some(samples * size * channels)
    }
}

/// `planes` planes (none if `planes` is negative) of `line` zero bytes each.
pub open spec fn zeroed(planes: int, line: int) -> Seq<Seq<u8>> {
    Seq::new(
        if planes < 0 {
            0
        } else {
            planes as nat
        },
        |i: int| Seq::new(line as nat, |j: int| 0u8),
    )
}

/// The number of planes that a buffer request makes: one per channel for a planar
/// format, one for a packed format.
pub open spec fn buffer_planes(v: AudioView, channels: i32) -> int {
    if view_is_planar(v) {
        channels as int
    } else {
        1
    }
}

/// The frame after a buffer has been requested for it.
///
/// Nothing happens without a format, without samples, or without both a layout and a
/// channel count. Otherwise a channel count of zero is taken from the layout; the plane
/// size is computed unless one is already set (and if it cannot be computed, only the
/// channel count has changed). Then the first planes (one per channel for a planar
/// format, one for a packed format) are replaced by zeroed planes of that size, and
/// planes beyond them are kept. A negative plane size that has to be allocated fails the
/// allocation, and the frame is reset to an empty one.
pub open spec fn spec_get_buffer(v: AudioView) -> AudioView {
    if v.format < 0 || !(v.samples > 0 && (v.channel_layout != 0 || v.channels > 0)) {
        v
    } else {
        let ch: i32 = if v.channels == 0 {
            count_ones(v.channel_layout as nat) as i32
        } else {
            v.channels
        };
        let line: Option<int> = if v.linesize == 0 {
            spec_line_size(spec_from_raw(v.format), ch as int, v.samples as int)
        } else {
            Some(v.linesize as int)
        };
        let planes = buffer_planes(v, ch);
        match line {
            None => AudioView { channels: ch, ..v },
            Some(l) => if l < 0 && planes > 0 {
                empty_view()
            } else if l < 0 {
                AudioView { channels: ch, ..v }
            } else {
                let kept = if planes < v.data.len() {
                    v.data.subrange(
                        if planes < 0 {
                            0
                        } else {
                            planes
                        },
                        v.data.len() as int,
                    )
                } else {
                    Seq::empty()
                };
                AudioView { channels: ch, linesize: l as i32, data: zeroed(planes, l) + kept, ..v }
            },
        }
    }
}

/// The frame after `allocate`: format, sample count and layout set, then a buffer requested.
pub open spec fn spec_alloc(
    v: AudioView,
    format: SampleFormat,
    samples: usize,
    layout: u64,
) -> AudioView {
    spec_get_buffer(
        AudioView { format: spec_raw(format), samples: samples as i32, channel_layout: layout, ..v },
    )
}

/// The number of planes that a copy between frames of `v`'s shape covers: one per
/// channel for a planar format, one for a packed format.
pub open spec fn copy_planes(v: AudioView) -> int {
    buffer_planes(v, v.channels)
}

/// The number of bytes of each plane that a copy covers: the samples of one channel for a
/// planar format, the samples of all channels for a packed format.
pub open spec fn copy_size(v: AudioView) -> int {
    v.samples * spec_bytes(spec_from_raw(v.format)) * (if view_is_planar(v) {
        1
    } else {
        v.channels as int
    })
}

/// Whether the samples of `src` are copied into `dst`: both have the same format (a set
/// one), the same positive sample count, the same channel count and the same non-empty
/// layout, and both have every plane that the copy covers.
pub open spec fn copy_applies(dst: AudioView, src: AudioView) -> bool {
    &&& dst.format == src.format
    &&& dst.format >= 0
    &&& dst.samples > 0
    &&& dst.channel_layout != 0
    &&& dst.samples == src.samples
    &&& dst.channels == src.channels
    &&& dst.channel_layout == src.channel_layout
    &&& copy_planes(dst) <= dst.data.len()
    &&& copy_planes(dst) <= src.data.len()
}

/// Whether a copy from `src` into `dst` stays inside the planes of both.
pub open spec fn copy_fits(dst: AudioView, src: AudioView) -> bool {
    (copy_applies(dst, src) && copy_planes(dst) > 0) ==> {
        &&& 0 <= copy_size(dst)
        &&& forall|i: int|
            0 <= i < copy_planes(dst) ==> copy_size(dst) <= #[trigger] dst.data[i].len()
                && copy_size(dst) <= src.data[i].len()
    }
}

/// `dst` after the samples of `src` have been copied into it: where the copy applies, the
/// first `copy_size` bytes of each covered plane come from `src`; nothing else changes.
pub open spec fn spec_copy(dst: AudioView, src: AudioView) -> AudioView {
    if copy_applies(dst, src) {
        AudioView {
            data: Seq::new(
                dst.data.len(),
                |i: int|
                    if i < copy_planes(dst) {
                        src.data[i].subrange(0, copy_size(dst)) + dst.data[i].subrange(
                            copy_size(dst),
                            dst.data[i].len() as int,
                        )
                    } else {
                        dst.data[i]
                    },
            ),
            ..dst
        }
    } else {
        dst
    }
}

/// `dst` after the properties of `src` have been copied into it: of the fields modelled
/// here, only the sample rate is a property; the layout, channel count, format and sample
/// count describe the buffers and stay.
pub open spec fn spec_copy_props(dst: AudioView, src: AudioView) -> AudioView {
    AudioView { rate: src.rate, ..dst }
}

/// A frame made for holding a copy of `v`: its format, sample count and known channels,
/// with a buffer requested.
pub open spec fn spec_clone_base(v: AudioView) -> AudioView {
    spec_alloc(
        empty_view(),
        spec_from_raw(v.format),
        v.samples as usize,
        v.channel_layout & ALL_CHANNELS,
    )
}

/// The copy of `v` that `clone` makes.
pub open spec fn spec_clone(v: AudioView) -> AudioView {
    spec_copy_props(spec_copy(spec_clone_base(v), v), v)
}

/// The frame after writes through borrows of its first planes: plane `k` holds
/// `written[k]` for each borrowed plane, and everything else is as in `v`.
pub open spec fn spec_after_writes(v: AudioView, written: Seq<Seq<u8>>) -> AudioView {
    AudioView {
        data: Seq::new(
            v.data.len(),
            |k: int|
                if k < written.len() {
                    written[k]
                } else {
                    v.data[k]
                },
        ),
        ..v
    }
}

/// The shape of a frame as libav builds it: a plane size of at least zero, no plane while
/// the size is zero, and every plane of that size.
pub open spec fn view_wf(v: AudioView) -> bool {
    &&& v.linesize >= 0
    &&& v.linesize == 0 ==> v.data.len() == 0
    &&& forall|i: int| 0 <= i < v.data.len() ==> #[trigger] v.data[i].len() == v.linesize
}

/// An audio frame.
pub struct Audio {
    format: i32,
    channel_layout: u64,
    channels: i32,
    rate: i32,
    samples: i32,
    linesize: i32,
    data: Vec<Vec<u8>>,
}

impl View for Audio {
    type V = AudioView;

    closed spec fn view(&self) -> AudioView {
        AudioView {
            format: self.format,
            channel_layout: self.channel_layout,
            channels: self.channels,
            rate: self.rate,
            samples: self.samples,
            linesize: self.linesize,
            data: self.data@.map_values(|p: Vec<u8>| p@),
        }
    }
}

/// The size in bytes of each plane of an unpadded buffer (see `spec_line_size`).
fn line_size(format: SampleFormat, channels: i32, samples: i32) -> (r: Option<i32>)
    ensures
        r matches Some(l) ==> spec_line_size(format, channels as int, samples as int) == Some(
            l as int,
        ),
        r is None ==> spec_line_size(format, channels as int, samples as int) is None,
{
    let size: i64 = format.bytes() as i64;
    if size == 0 || samples <= 0 || channels <= 0 {
        return None;
    }
    assert(0 < channels as int * samples as int <= 0x7fff_ffff * 0x7fff_ffff) by (nonlinear_arith)
        requires
            0 < channels <= 0x7fff_ffff,
            0 < samples <= 0x7fff_ffff,
    ;
    let lhs: i64 = channels as i64 * samples as i64;
    let rhs: i64 = (INT_MAX as i64 - channels as i64) / size;
    if lhs > rhs {
        return None;
    }
    assert(lhs * size <= INT_MAX - channels) by (nonlinear_arith)
        requires
            lhs <= rhs,
            rhs as int == (INT_MAX as int - channels as int) / (size as int),
            0 < size,
            0 < channels <= INT_MAX,
    ;
    assert(samples * size <= lhs * size) by (nonlinear_arith)
        requires
            lhs == channels * samples,
            0 < size,
            0 < channels,
            0 < samples,
    ;
    assert(lhs * size == samples * size * channels) by (nonlinear_arith)
        requires
            lhs == channels * samples,
    ;
    let line: i64 = if format.is_planar() {
        samples as i64 * size
    } else {
        lhs * size
    };
    Some(line as i32)
}

/// `planes` planes (none if `planes` is negative) of `line` zero bytes each.
fn zeroed_planes(planes: i32, line: i32) -> (r: Vec<Vec<u8>>)
    requires
        line >= 0,
    ensures
        r@.map_values(|p: Vec<u8>| p@) =~~= zeroed(planes as int, line as int),
        forall|i: int| 0 <= i < r@.len() ==> #[trigger] r@[i]@.len() == line,
{
    let mut r: Vec<Vec<u8>> = Vec::new();
    let mut i: i32 = 0;
    while i < planes
        invariant
            0 <= i,
            planes >= 0 ==> i <= planes,
            planes < 0 ==> i == 0,
            line >= 0,
            r@.len() == i,
            forall|k: int| 0 <= k < i ==> #[trigger] r@[k]@ =~= Seq::new(line as nat, |j: int| 0u8),
        decreases planes - i,
    {
        let p: Vec<u8> = vec![0u8; line as usize];
        assert(p@ =~= Seq::new(line as nat, |j: int| 0u8)) by {
            assert forall|j: int| 0 <= j < line implies p@[j] == 0u8 by {
                assert(cloned(0u8, p@[j]));
            }
        }
        r.push(p);
        i = i + 1;
    }
    r
}

/// Mutable borrows of the first `n` planes of `rest`, in order: each starts with its
/// plane's bytes, and each plane ends holding what was written through its borrow.
fn split_planes<'a>(rest: &'a mut [Vec<u8>], n: usize) -> (r: Vec<&'a mut [u8]>)
    requires
        n <= old(rest)@.len(),
    ensures
        r@.len() == n,
        forall|k: int| 0 <= k < n ==> #[trigger] r@[k]@ == old(rest)@[k]@,
        final(rest)@.len() == old(rest)@.len(),
        forall|k: int| 0 <= k < n ==> #[trigger] final(rest)@[k]@ == final(r@[k])@,
        forall|k: int| n <= k < old(rest)@.len() ==> #[trigger] final(rest)@[k] == old(rest)@[k],
    decreases n,
{
    if n == 0 {
        return Vec::new();
    }
    let (head, tail) = rest.split_at_mut(1);
    let p: &mut Vec<u8> = head.first_mut().unwrap();
    let mut r = split_planes(tail, n - 1);
    r.insert(0, p.as_mut_slice());
    r
}

/// The debug text of a format; no format reads `None`.
pub open spec fn format_text(s: SampleFormat) -> Seq<char> {
    match s {
        SampleFormat::NoFormat => "None"@,
        SampleFormat::U8(Type::Packed) => "U8(Packed)"@,
        SampleFormat::I16(Type::Packed) => "I16(Packed)"@,
        SampleFormat::I32(Type::Packed) => "I32(Packed)"@,
        SampleFormat::F32(Type::Packed) => "F32(Packed)"@,
        SampleFormat::F64(Type::Packed) => "F64(Packed)"@,
        SampleFormat::U8(Type::Planar) => "U8(Planar)"@,
        SampleFormat::I16(Type::Planar) => "I16(Planar)"@,
        SampleFormat::I32(Type::Planar) => "I32(Planar)"@,
        SampleFormat::F32(Type::Planar) => "F32(Planar)"@,
        SampleFormat::F64(Type::Planar) => "F64(Planar)"@,
    }
}

/// The text of a decimal digit.
pub open spec fn digit_text(d: int) -> Seq<char> {
    if d == 0 {
        "0"@
    } else if d == 1 {
        "1"@
    } else if d == 2 {
        "2"@
    } else if d == 3 {
        "3"@
    } else if d == 4 {
        "4"@
    } else if d == 5 {
        "5"@
    } else if d == 6 {
        "6"@
    } else if d == 7 {
        "7"@
    } else if d == 8 {
        "8"@
    } else {
        "9"@
    }
}

/// The decimal text of a number.
pub open spec fn decimal(n: nat) -> Seq<char>
    decreases n,
{
    if n < 10 {
        digit_text(n as int)
    } else {
        decimal(n / 10) + digit_text((n % 10) as int)
    }
}

/// The text that describes a frame: its format, channel count, rate and sample count, as
/// its getters give them.
pub open spec fn spec_describe(v: AudioView) -> Seq<char> {
    "ffmpeg::frame::Audio { format: "@ + format_text(spec_from_raw(v.format)) + ", channels: "@
        + decimal((v.channels as u16) as nat) + ", rate: "@ + decimal((v.rate as u32) as nat)
        + ", samples: "@ + decimal((v.samples as usize) as nat) + " }"@
}

fn format_str(s: SampleFormat) -> (r: &'static str)
    ensures
        r@ == format_text(s),
{
    match s {
        SampleFormat::NoFormat => "None",
        SampleFormat::U8(Type::Packed) => "U8(Packed)",
        SampleFormat::I16(Type::Packed) => "I16(Packed)",
        SampleFormat::I32(Type::Packed) => "I32(Packed)",
        SampleFormat::F32(Type::Packed) => "F32(Packed)",
        SampleFormat::F64(Type::Packed) => "F64(Packed)",
        SampleFormat::U8(Type::Planar) => "U8(Planar)",
        SampleFormat::I16(Type::Planar) => "I16(Planar)",
        SampleFormat::I32(Type::Planar) => "I32(Planar)",
        SampleFormat::F32(Type::Planar) => "F32(Planar)",
        SampleFormat::F64(Type::Planar) => "F64(Planar)",
    }
}

fn digit_str(d: u64) -> (r: &'static str)
    requires
        d < 10,
    ensures
        r@ == digit_text(d as int),
{
    match d {
        0 => "0",
        1 => "1",
        2 => "2",
        3 => "3",
        4 => "4",
        5 => "5",
        6 => "6",
        7 => "7",
        8 => "8",
        _ => "9",
    }
}

/// Appends the decimal text of `n`.
fn append_decimal(out: &mut String, n: u64)
    ensures
        final(out)@ == old(out)@ + decimal(n as nat),
    decreases n,
{
    if n >= 10 {
        append_decimal(out, n / 10);
    }
    out.append(digit_str(n % 10));
    proof {
        if n >= 10 {
            assert(final(out)@ =~= old(out)@ + decimal(n as nat));
        }
    }
}

impl Audio {
    /// A frame made of the given raw fields and planes, which must have the shape of a
    /// frame (see `view_wf`): a plane size of at least zero, no plane while it is zero, and
    /// every plane of that size.
    pub fn from_parts(
        format: i32,
        channel_layout: u64,
        channels: i32,
        rate: i32,
        samples: i32,
        linesize: i32,
        data: Vec<Vec<u8>>,
    ) -> (r: Audio)
        requires
            linesize >= 0,
            linesize == 0 ==> data@.len() == 0,
            forall|i: int| 0 <= i < data@.len() ==> #[trigger] data@[i]@.len() == linesize,
        ensures
            r@ == (AudioView {
                format,
                channel_layout,
                channels,
                rate,
                samples,
                linesize,
                data: data@.map_values(|p: Vec<u8>| p@),
            }),
    {
        Audio { format, channel_layout, channels, rate, samples, linesize, data }
    }

    /// A frame with no format, no buffer and every count zero.
    pub fn empty() -> (r: Audio)
        ensures
            r@ == empty_view(),
    {
        let r = Audio {
            format: -1i32,
            channel_layout: 0,
            channels: 0,
            rate: 0,
            samples: 0,
            linesize: 0,
            data: Vec::new(),
        };
        assert(r@.data =~= Seq::<Seq<u8>>::empty());
        r
    }

    /// Requests a buffer for the frame (see `spec_get_buffer`).
    fn get_buffer(&mut self)
        ensures
            final(self)@ == spec_get_buffer(old(self)@),
    {
        if self.format < 0 || !(self.samples > 0 && (self.channel_layout != 0 || self.channels
            > 0)) {
            return ;
        }
        let channels: i32 = if self.channels == 0 {
            nb_channels(self.channel_layout) as i32
        } else {
            self.channels
        };
        let format = SampleFormat::from_raw(self.format);
        let line: i32;
        if self.linesize == 0 {
            match line_size(format, channels, self.samples) {
                None => {
                    self.channels = channels;
                    return ;
                },
                Some(l) => {
                    line = l;
                },
            }
        } else {
            line = self.linesize;
        }
        let planes: i32 = if format.is_planar() {
            channels
        } else {
            1
        };
        if line < 0 {
            if planes > 0 {
                *self = Audio::empty();
            } else {
                self.channels = channels;
            }
            return ;
        }
        let ghost old_view = self@;
        let mut data = zeroed_planes(planes, line);
        let first: usize = if planes < 0 {
            0
        } else {
            planes as usize
        };
        if first < self.data.len() {
            let mut kept = self.data.split_off(first);
            data.append(&mut kept);
        }
        self.channels = channels;
        self.linesize = line;
        self.data = data;
        assert(self@.data =~~= spec_get_buffer(old_view).data);
    }

    /// Sets the format, the sample count and the layout, then requests a buffer
    /// (see `spec_alloc`).
    pub fn allocate(&mut self, format: SampleFormat, samples: usize, layout: ChannelLayout)
        ensures
            final(self)@ == spec_alloc(old(self)@, format, samples, layout@),
    {
        self.set_format(format);
        self.set_samples(samples);
        self.set_channel_layout(layout);
        self.get_buffer();
    }

    /// A new frame of the given format, sample count and layout, with its buffer
    /// requested (see `spec_alloc`).
    pub fn new(format: SampleFormat, samples: usize, layout: ChannelLayout) -> (r: Audio)
        ensures
            r@ == spec_alloc(empty_view(), format, samples, layout@),
    {
        let mut frame = Audio::empty();
        frame.allocate(format, samples, layout);
        frame
    }

    /// The sample format; a raw code that names no format gives `NoFormat`.
    pub fn format(&self) -> (r: SampleFormat)
        ensures
            r == spec_from_raw(self@.format),
    {
        if self.format == -1 {
            SampleFormat::NoFormat
        } else {
            SampleFormat::from_raw(self.format)
        }
    }

    /// Sets the sample format; nothing else changes.
    pub fn set_format(&mut self, value: SampleFormat)
        ensures
            final(self)@ == (AudioView { format: spec_raw(value), ..old(self)@ }),
    {
        self.format = value.raw();
    }

    /// The channel layout: the known channels among the raw layout bits.
    pub fn channel_layout(&self) -> (r: ChannelLayout)
        ensures
            r@ == self@.channel_layout & ALL_CHANNELS,
    {
        ChannelLayout::from_bits_truncate(self.channel_layout)
    }

    /// Sets the channel layout; nothing else changes.
    pub fn set_channel_layout(&mut self, value: ChannelLayout)
        ensures
            final(self)@ == (AudioView { channel_layout: value@, ..old(self)@ }),
    {
        self.channel_layout = value.bits();
    }

    /// The channel count, truncated to 16 bits.
    pub fn channels(&self) -> (r: u16)
        ensures
            r == self@.channels as u16,
    {
        self.channels as u16
    }

    /// Sets the channel count; nothing else changes.
    pub fn set_channels(&mut self, value: u16)
        ensures
            final(self)@ == (AudioView { channels: value as i32, ..old(self)@ }),
    {
        self.channels = value as i32;
    }

    /// The sample rate, read as unsigned.
    pub fn rate(&self) -> (r: u32)
        ensures
            r == self@.rate as u32,
    {
        self.rate as u32
    }

    /// Sets the sample rate (stored as a C `int`, bit for bit); nothing else changes.
    pub fn set_rate(&mut self, value: u32)
        ensures
            final(self)@ == (AudioView { rate: value as i32, ..old(self)@ }),
    {
        self.rate = value as i32;
    }

    /// The number of samples per channel, sign-extended to `usize`.
    pub fn samples(&self) -> (r: usize)
        ensures
            r == self@.samples as usize,
    {
        self.samples as usize
    }

    /// Sets the number of samples per channel, truncated to a C `int`; nothing else changes.
    pub fn set_samples(&mut self, value: usize)
        ensures
            final(self)@ == (AudioView { samples: value as i32, ..old(self)@ }),
    {
        self.samples = value as i32;
    }

    /// Whether the format keeps one plane per channel.
    pub fn is_planar(&self) -> (r: bool)
        ensures
            r == view_is_planar(self@),
    {
        self.format().is_planar()
    }

    /// Whether the format interleaves all channels in one plane.
    pub fn is_packed(&self) -> (r: bool)
        ensures
            r == !view_is_planar(self@),
    {
        self.format().is_packed()
    }

    /// The number of planes (see `spec_planes`).
    pub fn planes(&self) -> (r: usize)
        ensures
            r == spec_planes(self@),
    {
        if self.linesize == 0 {
            return 0;
        }
        if self.is_packed() {
            1
        } else {
            self.channels() as usize
        }
    }

    /// The text that describes the frame (see `spec_describe`).
    pub fn describe(&self) -> (r: String)
        ensures
            r@ == spec_describe(self@),
    {
        let mut out = String::new();
        out.append("ffmpeg::frame::Audio { format: ");
        out.append(format_str(self.format()));
        out.append(", channels: ");
        append_decimal(&mut out, self.channels() as u64);
        out.append(", rate: ");
        append_decimal(&mut out, self.rate() as u64);
        out.append(", samples: ");
        append_decimal(&mut out, self.samples() as u64);
        out.append(" }");
        assert(out@ =~= spec_describe(self@));
        out
    }

    /// Copies the samples of `source` into the frame (see `spec_copy`).
    fn copy_samples(&mut self, source: &Audio)
        requires
            copy_fits(old(self)@, source@),
        ensures
            final(self)@ == spec_copy(old(self)@, source@),
    {
        if self.format != source.format || self.format < 0 {
            return ;
        }
        if !(self.samples > 0 && self.channel_layout != 0) {
            return ;
        }
        if self.samples != source.samples || self.channels != source.channels
            || self.channel_layout != source.channel_layout {
            return ;
        }
        let format = SampleFormat::from_raw(self.format);
        let planar = format.is_planar();
        let planes: i32 = if planar {
            self.channels
        } else {
            1
        };
        if planes > 0 && (planes as usize > self.data.len() || planes as usize
            > source.data.len()) {
            return ;
        }
        if planes <= 0 {
            assert(self@.data =~~= spec_copy(old(self)@, source@).data);
            return ;
        }
        let ghost old_view = self@;
        let ghost size_int = copy_size(old_view);
        assert(0 <= size_int <= old_view.data[0].len());
        let bytes: i128 = format.bytes() as i128;
        assert(-8 * 0x8000_0000 <= bytes * self.channels <= 8 * 0x8000_0000) by (nonlinear_arith)
            requires
                0 <= bytes <= 8,
                -0x8000_0000 <= self.channels <= 0x7fff_ffff,
        ;
        let per_sample: i128 = if planar {
            bytes
        } else {
            bytes * self.channels as i128
        };
        assert(size_int == self.samples as int * per_sample as int) by (nonlinear_arith)
            requires
                size_int == self.samples as int * bytes as int * (if planar {
                    1
                } else {
                    self.channels as int
                }),
                per_sample as int == bytes as int * (if planar {
                    1
                } else {
                    self.channels as int
                }),
        ;
        assert(-0x8000_0000 * 0x8_0000_0000 <= self.samples * per_sample <= 0x8000_0000
            * 0x8_0000_0000) by (nonlinear_arith)
            requires
                -0x8_0000_0000 <= per_sample <= 0x8_0000_0000,
                -0x8000_0000 <= self.samples <= 0x7fff_ffff,
        ;
        let product: i128 = self.samples as i128 * per_sample;
        assert(product == size_int);
        let first_len: usize = self.data[0].len();
        assert(0 <= product <= usize::MAX);
        let size: usize = product as usize;
        let n: usize = planes as usize;
        let mut i: usize = 0;
        while i < n
            invariant
                n == copy_planes(old_view),
                0 < n <= old_view.data.len(),
                n <= source@.data.len(),
                size == copy_size(old_view),
                copy_fits(old_view, source@),
                copy_applies(old_view, source@),
                i <= n,
                self@ == (AudioView { data: self@.data, ..old_view }),
                self@.data.len() == old_view.data.len(),
                forall|k: int|
                    0 <= k < i ==> #[trigger] self@.data[k] == spec_copy(old_view, source@).data[k],
                forall|k: int| i <= k < self@.data.len() ==> #[trigger] self@.data[k] == old_view.data[k],
            decreases n - i,
        {
            assert(size <= old_view.data[i as int].len() && size <= source@.data[i as int].len());
            assert(self@.data[i as int] == old_view.data[i as int]);
            let mut plane: Vec<u8> = Vec::new();
            let mut j: usize = 0;
            while j < size
                invariant
                    i < n,
                    n <= old_view.data.len(),
                    n <= source@.data.len(),
                    size <= source@.data[i as int].len(),
                    j <= size,
                    plane@ =~= source@.data[i as int].subrange(0, j as int),
                decreases size - j,
            {
                plane.push(source.data[i][j]);
                j = j + 1;
            }
            let len = self.data[i].len();
            while j < len
                invariant
                    i < n,
                    n <= self@.data.len(),
                    len == self@.data[i as int].len(),
                    size <= j <= len,
                    size <= source@.data[i as int].len(),
                    plane@ =~= source@.data[i as int].subrange(0, size as int) + self@.data[
                        i as int
                    ].subrange(size as int, j as int),
                decreases len - j,
            {
                plane.push(self.data[i][j]);
                j = j + 1;
            }
            assert(plane@ == spec_copy(old_view, source@).data[i as int]);
            let ghost before = self@.data;
            self.data.set(i, plane);
            assert(self@.data =~= before.update(i as int, spec_copy(old_view, source@).data[i as int]));
            i = i + 1;
        }
        assert(self@.data =~~= spec_copy(old_view, source@).data);
    }

    /// Copies the samples and then the sample rate of `source` into the frame (see
    /// `spec_copy` and `spec_copy_props`).
    pub fn clone_from(&mut self, source: &Audio)
        requires
            copy_fits(old(self)@, source@),
        ensures
            final(self)@ == spec_copy_props(spec_copy(old(self)@, source@), source@),
    {
        self.copy_samples(source);
        self.rate = source.rate;
    }

    /// A copy of the frame: a new frame of its format, sample count and known channels,
    /// into which its samples and sample rate are copied (see `spec_clone`).
    pub fn clone(&self) -> (r: Audio)
        requires
            copy_fits(spec_clone_base(self@), self@),
        ensures
            r@ == spec_clone(self@),
    {
        let mut cloned = Audio::new(self.format(), self.samples(), self.channel_layout());
        cloned.clone_from(self);
        cloned
    }

    /// The bytes of plane `index`, read as values of type `T`: the first
    /// `samples() * T::size()` values of `T`, each `T::size()` bytes (see `plane_len`).
    ///
    /// The plane must be one of the frame's planes, one of the planes that the frame keeps
    /// in its fixed table, and allocated; `T` must fit the format and channel count; and
    /// those values must fit in the plane.
    pub fn plane<T: Sample>(&self, index: usize) -> (r: &[u8])
        requires
            index < spec_planes(self@),
            index < NUM_DATA_POINTERS,
            index < self@.data.len(),
            layout_fits(T::element(), T::arity(), spec_from_raw(self@.format), self@.channels as u16),
            0 <= self@.samples,
            plane_len::<T>(self@) <= self@.data[index as int].len(),
        ensures
            r@ == self@.data[index as int].subrange(0, plane_len::<T>(self@)),
    {
        let bytes: &[u8] = self.data[index].as_slice();
        let plane_len: usize = bytes.len();
        assert(plane_len == self@.data[index as int].len());
        let size: usize = T::size();
        assert(self.samples * size <= self.samples * size * size) by (nonlinear_arith)
            requires
                0 <= self.samples,
                0 <= size,
        ;
        let n: usize = self.samples as usize * size * size;
        vstd::slice::slice_subrange(bytes, 0, n)
    }

    /// The bytes of the samples of plane `index`, read as samples of type `T`; as `plane`,
    /// through a mutable borrow of the frame, which it leaves unchanged.
    pub fn plane_mut<T: Sample>(&mut self, index: usize) -> (r: &[u8])
        requires
            index < spec_planes(old(self)@),
            index < NUM_DATA_POINTERS,
            index < old(self)@.data.len(),
            layout_fits(T::element(), T::arity(), spec_from_raw(old(self)@.format), old(self)@.channels as u16),
            0 <= old(self)@.samples,
            plane_len::<T>(old(self)@) <= old(self)@.data[index as int].len(),
        ensures
            r@ == old(self)@.data[index as int].subrange(0, plane_len::<T>(old(self)@)),
            final(self)@ == old(self)@,
    {
        let bytes: &[u8] = self.data[index].as_slice();
        let plane_len: usize = bytes.len();
        assert(plane_len == self@.data[index as int].len());
        let size: usize = T::size();
        assert(self.samples * size <= self.samples * size * size) by (nonlinear_arith)
            requires
                0 <= self.samples,
                0 <= size,
        ;
        let n: usize = self.samples as usize * size * size;
        vstd::slice::slice_subrange(bytes, 0, n)
    }

    /// The bytes of every plane, in order, to write.
    pub fn data_mut(&mut self) -> (r: Vec<&mut [u8]>)
        requires
            spec_planes(old(self)@) <= NUM_DATA_POINTERS,
            spec_planes(old(self)@) <= old(self)@.data.len(),
        ensures
            r@.len() == spec_planes(old(self)@),
            forall|i: int| 0 <= i < r@.len() ==> #[trigger] r@[i]@ == old(self)@.data[i],
            view_wf(old(self)@) ==> forall|i: int| 0 <= i < r@.len() ==> #[trigger] r@[i]@.len()
                == old(self)@.linesize,
            final(self)@ == spec_after_writes(
                old(self)@,
                Seq::new(r@.len(), |k: int| final(r@[k])@),
            ),
    {
        let planes = self.planes();
        let ghost old_view = self@;
        let rest: &mut [Vec<u8>] = self.data.as_mut_slice();
        let r = split_planes(rest, planes);
        assert forall|i: int| 0 <= i < r@.len() implies #[trigger] r@[i]@.len()
            == old_view.data[i].len() by {
            assert(r@[i]@ == old_view.data[i]);
        }
        r
    }

    /// The bytes of every plane, in order.
    ///
    /// Every plane must be allocated and kept in the frame's fixed table.
    pub fn data(&self) -> (r: Vec<&[u8]>)
        requires
            spec_planes(self@) <= NUM_DATA_POINTERS,
            spec_planes(self@) <= self@.data.len(),
        ensures
            r@.len() == spec_planes(self@),
            forall|i: int| 0 <= i < r@.len() ==> #[trigger] r@[i]@ == self@.data[i],
            view_wf(self@) ==> forall|i: int| 0 <= i < r@.len() ==> #[trigger] r@[i]@.len()
                == self@.linesize,
    {
        let mut result: Vec<&[u8]> = Vec::new();
        let planes = self.planes();
        let mut i: usize = 0;
        while i < planes
            invariant
                planes == spec_planes(self@),
                planes <= self@.data.len(),
                i <= planes,
                result@.len() == i,
                forall|k: int| 0 <= k < i ==> #[trigger] result@[k]@ == self@.data[k],
            decreases planes - i,
        {
            result.push(self.data[i].as_slice());
            i = i + 1;
        }
        result
    }
}

/// A plane size that can be computed is positive and fits in a C `int`.
pub proof fn lemma_line_size_range(s: SampleFormat, channels: int, samples: int)
    ensures
        spec_line_size(s, channels, samples) matches Some(l) ==> 0 < l <= INT_MAX,
{
    if spec_line_size(s, channels, samples) is Some {
        let size = spec_bytes(s);
        let l = spec_line_size(s, channels, samples).unwrap();
        assert(channels * samples * size <= INT_MAX - channels) by (nonlinear_arith)
            requires
                0 < size,
                0 < channels,
                channels * samples <= (INT_MAX - channels) / size,
        ;
        assert(0 < samples * size <= samples * size * channels) by (nonlinear_arith)
            requires
                0 < size,
                0 < channels,
                0 < samples,
        ;
        assert(samples * size * channels == channels * samples * size) by (nonlinear_arith);
    }
}

/// A frame made by `new` keeps the shape of every frame (`view_wf`), and its planes are
/// exactly the planes it reports. It has planes exactly when its format is set, its sample
/// count (as a C `int`) is positive, its layout is not empty, and a buffer of that many
/// samples of that many channels fits in a C `int`; then its channel count is the number
/// of channels of the layout, and it has, for a planar format, one plane per channel and,
/// for a packed format, one plane, each of the computed size and all zero.
pub proof fn law_new_frame_shape(format: SampleFormat, samples: usize, layout: u64)
    requires
        layout & ALL_CHANNELS == layout,
    ensures
        ({
            let v = spec_alloc(empty_view(), format, samples, layout);
            let s = samples as i32;
            let ch = count_ones(layout as nat);
            let line = spec_line_size(format, ch as int, s as int);
            &&& view_wf(v)
            &&& spec_planes(v) == v.data.len()
            &&& v.format == spec_raw(format)
            &&& v.samples == s
            &&& v.channel_layout == layout
            &&& v.rate == 0
            &&& (v.data.len() > 0 <==> (format != SampleFormat::NoFormat && s > 0 && layout != 0
                && line is Some))
            &&& v.data.len() > 0 ==> {
                &&& v.channels == ch
                &&& line == Some(v.linesize as int)
                &&& v.data.len() == (if spec_is_planar(format) {
                    ch as int
                } else {
                    1
                })
                &&& forall|i: int, j: int|
                    0 <= i < v.data.len() && 0 <= j < v.linesize ==> #[trigger] v.data[i][j] == 0
            }
        }),
{
    let s = samples as i32;
    let ch = count_ones(layout as nat);
    let w = AudioView { format: spec_raw(format), samples: s, channel_layout: layout, ..empty_view() };
    let v = spec_get_buffer(w);
    assert(v == spec_alloc(empty_view(), format, samples, layout));
    lemma_count_ones_u64(layout);
    lemma_from_raw_of_raw(format);
    let line = spec_line_size(format, ch as int, s as int);
    if format == SampleFormat::NoFormat || s <= 0 || layout == 0 {
        assert(v == w);
    } else {
        lemma_count_ones_positive(layout as nat);
        assert(spec_from_raw(w.format) == format);
        if line is Some {
            let l = line.unwrap();
            lemma_line_size_range(format, ch as int, s as int);
            let planes = buffer_planes(w, ch as i32);
            assert(planes > 0);
            assert(v.data =~= zeroed(planes, l));
            assert(v.linesize == l);
        } else {
            assert(v == AudioView { channels: ch as i32, ..w });
        }
    }
}

/// `clone` accepts every frame made by `new`, and its copy is identical to the frame:
/// same format, sample count, layout, channel count, rate, plane size and plane bytes.
pub proof fn law_clone_of_new(format: SampleFormat, samples: usize, layout: u64)
    requires
        layout & ALL_CHANNELS == layout,
    ensures
        copy_fits(
            spec_clone_base(spec_alloc(empty_view(), format, samples, layout)),
            spec_alloc(empty_view(), format, samples, layout),
        ),
        spec_clone(spec_alloc(empty_view(), format, samples, layout)) == spec_alloc(
            empty_view(),
            format,
            samples,
            layout,
        ),
{
    let v = spec_alloc(empty_view(), format, samples, layout);
    law_new_frame_shape(format, samples, layout);
    lemma_from_raw_of_raw(format);
    let s = samples as i32;
    assert(((s as usize) as i32) == s) by (bit_vector);
    assert(spec_clone_base(v) == v);
    if copy_applies(v, v) && copy_planes(v) > 0 {
        let ch = count_ones(layout as nat);
        let size = copy_size(v);
        lemma_count_ones_u64(layout);
        assert(v.data.len() > 0);
        assert(size == v.linesize) by (nonlinear_arith)
            requires
                size == v.samples * spec_bytes(format) * (if spec_is_planar(format) {
                    1
                } else {
                    v.channels as int
                }),
                spec_line_size(format, ch as int, v.samples as int) == Some(v.linesize as int),
                v.channels == ch,
                ch > 0,
        ;
        assert(spec_copy(v, v).data =~~= v.data);
    }
    if copy_applies(v, v) {
        assert(spec_copy(v, v).data =~~= v.data);
    }
    assert(spec_clone(v) =~~= v);
}

/// Reading the format back gives what `set_format` wrote.
pub proof fn law_format_round_trip(v: AudioView, value: SampleFormat)
    ensures
        spec_from_raw((AudioView { format: spec_raw(value), ..v }).format) == value,
{
    lemma_from_raw_of_raw(value);
}

/// Reading the layout back gives what `set_channel_layout` wrote: truncating a layout's
/// bits again keeps them all.
pub proof fn law_channel_layout_round_trip(v: AudioView, bits: u64)
    ensures
        (AudioView { channel_layout: bits & ALL_CHANNELS, ..v }).channel_layout & ALL_CHANNELS
            == bits & ALL_CHANNELS,
{
    assert((bits & ALL_CHANNELS) & ALL_CHANNELS == bits & ALL_CHANNELS) by (bit_vector);
}

/// Reading the channel count back gives what `set_channels` wrote.
pub proof fn law_channels_round_trip(v: AudioView, value: u16)
    ensures
        (AudioView { channels: value as i32, ..v }).channels as u16 == value,
{
    assert((value as i32) as u16 == value) by (bit_vector);
}

/// Reading the rate back gives what `set_rate` wrote, for every rate.
pub proof fn law_rate_round_trip(v: AudioView, value: u32)
    ensures
        (AudioView { rate: value as i32, ..v }).rate as u32 == value,
{
    assert((value as i32) as u32 == value) by (bit_vector);
}

/// Reading the sample count back gives what `set_samples` wrote, for every count that
/// fits in a C `int`.
pub proof fn law_samples_round_trip(v: AudioView, value: usize)
    requires
        value <= INT_MAX,
    ensures
        (AudioView { samples: value as i32, ..v }).samples as usize == value,
{
    assert(value <= 0x7fff_ffff ==> (value as i32) as usize == value) by (bit_vector);
}

/// A sample type of several values fits only a packed format with as many channels.
pub proof fn law_tuple_needs_packed(element: Element, arity: nat, format: SampleFormat, channels: u16)
    requires
        arity >= 2,
        layout_fits(element, arity, format, channels),
    ensures
        !spec_is_planar(format),
        channels as nat == arity,
{
}

/// Every setter keeps the shape of a frame (see `view_wf`): none touches the planes or
/// their size.
pub proof fn law_setters_keep_shape(
    v: AudioView,
    format: i32,
    layout: u64,
    channels: i32,
    rate: i32,
    samples: i32,
)
    requires
        view_wf(v),
    ensures
        view_wf(AudioView { format, ..v }),
        view_wf(AudioView { channel_layout: layout, ..v }),
        view_wf(AudioView { channels, ..v }),
        view_wf(AudioView { rate, ..v }),
        view_wf(AudioView { samples, ..v }),
{
}

/// `allocate` keeps the shape of a frame.
pub proof fn law_allocate_keeps_shape(
    v: AudioView,
    format: SampleFormat,
    samples: usize,
    layout: u64,
)
    requires
        view_wf(v),
    ensures
        view_wf(spec_alloc(v, format, samples, layout)),
{
    let w = AudioView { format: spec_raw(format), samples: samples as i32, channel_layout: layout, ..v };
    let r = spec_get_buffer(w);
    if !(w.format < 0 || !(w.samples > 0 && (w.channel_layout != 0 || w.channels > 0))) {
        let ch: i32 = if w.channels == 0 {
            count_ones(w.channel_layout as nat) as i32
        } else {
            w.channels
        };
        if w.linesize == 0 {
            lemma_line_size_range(spec_from_raw(w.format), ch as int, w.samples as int);
        }
        assert forall|i: int| 0 <= i < r.data.len() implies #[trigger] r.data[i].len()
            == r.linesize by {
            let planes = buffer_planes(w, ch);
            if i < zeroed(planes, r.linesize as int).len() {
            } else {
                let p = if planes < 0 { 0 } else { planes };
                assert(r.data[i] == w.data[p + i - zeroed(planes, r.linesize as int).len()]);
            }
        }
    }
}

/// `clone_from` keeps the shape of the frame it copies into.
pub proof fn law_clone_from_keeps_shape(dst: AudioView, src: AudioView)
    requires
        view_wf(dst),
        copy_fits(dst, src),
    ensures
        view_wf(spec_copy_props(spec_copy(dst, src), src)),
{
    let r = spec_copy_props(spec_copy(dst, src), src);
    if copy_applies(dst, src) {
        assert forall|i: int| 0 <= i < r.data.len() implies #[trigger] r.data[i].len()
            == r.linesize by {
            if i < copy_planes(dst) {
                assert(dst.data[i].len() == dst.linesize);
                assert(copy_size(dst) <= src.data[i].len());
            }
        }
    }
}

/// Through `plane::<u8>`, a frame gives the first `samples()` bytes of the plane.
pub proof fn law_plane_of_bytes(v: AudioView)
    ensures
        plane_len::<u8>(v) == v.samples,
{
    assert(<u8 as Sample>::element() == Element::U8);
    assert(<u8 as Sample>::arity() == 1);
    assert(sample_bytes::<u8>() == 1);
}

/// A write of byte `b` at `k` through the borrow of plane `i` from `data_mut`, with no other
/// write, changes that byte of that plane and nothing else of the frame.
pub proof fn law_write_lands_in_its_plane(
    v: AudioView,
    written: Seq<Seq<u8>>,
    i: int,
    k: int,
    b: u8,
)
    requires
        written.len() <= v.data.len(),
        0 <= i < written.len(),
        0 <= k < v.data[i].len(),
        written[i] == v.data[i].update(k, b),
        forall|j: int| 0 <= j < written.len() && j != i ==> #[trigger] written[j] == v.data[j],
    ensures
        spec_after_writes(v, written) == (AudioView { data: v.data.update(i, v.data[i].update(k, b)), ..v }),
{
    assert(spec_after_writes(v, written).data =~= v.data.update(i, v.data[i].update(k, b)));
}

/// Borrowing the planes through `data_mut` without writing leaves the frame as it was.
pub proof fn law_borrow_without_write(v: AudioView, written: Seq<Seq<u8>>)
    requires
        written.len() <= v.data.len(),
        forall|j: int| 0 <= j < written.len() ==> #[trigger] written[j] == v.data[j],
    ensures
        spec_after_writes(v, written) == v,
{
    assert(spec_after_writes(v, written).data =~= v.data);
}

/// The value of a numeral: its digits read in base ten.
pub open spec fn numeral_value(s: Seq<char>) -> int
    decreases s.len(),
{
    if s.len() == 0 {
        0
    } else {
        numeral_value(s.drop_last()) * 10 + (s.last() as int - '0' as int)
    }
}

/// Whether every character of `s` is a decimal digit.
pub open spec fn all_digits(s: Seq<char>) -> bool {
    forall|i: int| 0 <= i < s.len() ==> '0' as int <= #[trigger] s[i] as int <= '9' as int
}

proof fn lemma_digit_text(d: int)
    requires
        0 <= d <= 9,
    ensures
        digit_text(d).len() == 1,
        digit_text(d)[0] as int == '0' as int + d,
{
    reveal_strlit("0");
    reveal_strlit("1");
    reveal_strlit("2");
    reveal_strlit("3");
    reveal_strlit("4");
    reveal_strlit("5");
    reveal_strlit("6");
    reveal_strlit("7");
    reveal_strlit("8");
    reveal_strlit("9");
}

/// The decimal text of a number is its base-ten numeral: a non-empty run of digits with
/// no leading zero, which reads back as the number.
pub proof fn law_decimal_reads_back(n: nat)
    ensures
        decimal(n).len() >= 1,
        all_digits(decimal(n)),
        numeral_value(decimal(n)) == n,
        decimal(n)[0] == '0' ==> n == 0,
    decreases n,
{
    if n < 10 {
        lemma_digit_text(n as int);
        assert(decimal(n).drop_last().len() == 0);
        assert(numeral_value(decimal(n).drop_last()) == 0);
        assert(decimal(n).last() as int == '0' as int + n);
    } else {
        law_decimal_reads_back(n / 10);
        lemma_digit_text((n % 10) as int);
        let s = decimal(n);
        assert(s == decimal(n / 10) + digit_text((n % 10) as int));
        assert(s.drop_last() =~= decimal(n / 10));
        assert(s.last() == digit_text((n % 10) as int)[0]);
        assert(numeral_value(s) == numeral_value(decimal(n / 10)) * 10 + (n % 10) as int);
        assert((n / 10) * 10 + n % 10 == n);
        assert(s[0] == decimal(n / 10)[0]);
        assert forall|i: int| 0 <= i < s.len() implies '0' as int <= #[trigger] s[i] as int
            <= '9' as int by {
            if i < decimal(n / 10).len() {
                assert(s[i] == decimal(n / 10)[i]);
            }
        }
    }
}

/// Each element type has its width in bytes, and every format of that element type, packed
/// or planar, has the same width.
pub proof fn law_element_width(e: Element, t: Type)
    ensures
        element_bytes(Element::U8) == size_of::<u8>(),
        element_bytes(Element::I16) == size_of::<i16>(),
        element_bytes(Element::I32) == size_of::<i32>(),
        element_bytes(Element::F32) == size_of::<u32>(),
        element_bytes(Element::F64) == size_of::<u64>(),
        element_bytes(e) == spec_bytes(packed_format(e)),
{
    broadcast use layout_of_primitives;

    law_bytes_is_sample_width(t);
}

/// The packed format of an element type has that element type and is packed.
pub proof fn law_packed_format(e: Element)
    ensures
        element_of(packed_format(e)) == Some(e),
        !spec_is_planar(packed_format(e)),
        packed_format(e) != SampleFormat::NoFormat,
{
}

/// Each format has the element type of its name; a format has an element type exactly
/// when it is set, and then its bytes per sample are that element type's width.
pub proof fn law_element_of(s: SampleFormat, t: Type)
    ensures
        element_of(SampleFormat::U8(t)) == Some(Element::U8),
        element_of(SampleFormat::I16(t)) == Some(Element::I16),
        element_of(SampleFormat::I32(t)) == Some(Element::I32),
        element_of(SampleFormat::F32(t)) == Some(Element::F32),
        element_of(SampleFormat::F64(t)) == Some(Element::F64),
        element_of(s) is None <==> s == SampleFormat::NoFormat,
        element_of(s) matches Some(e) ==> element_bytes(e) == spec_bytes(s),
{
}

/// A sample type of `n >= 2` values of `e` fits exactly the packed formats whose element
/// type is `e`, with `n` channels; a single value of `e` fits exactly the formats whose
/// element type is `e`.
pub proof fn law_fit_rule(e: Element, n: nat, format: SampleFormat, channels: u16)
    ensures
        n == 1 ==> (layout_fits(e, n, format, channels) <==> element_of(format) == Some(e)),
        n >= 2 ==> (layout_fits(e, n, format, channels) <==> (channels as nat == n
            && element_of(format) == Some(e) && !spec_is_planar(format))),
{
    law_packed_format(e);
    if n >= 2 && channels as nat == n && element_of(format) == Some(e) && !spec_is_planar(
        format,
    ) {
        assert(format == packed_format(e));
    }
}

/// The bytes that a copy covers are the plane size of a buffer of that shape: for a frame
/// whose plane size is the one computed for its format, channel count and sample count,
/// a copy covers whole planes.
pub proof fn law_copy_size_is_plane_size(v: AudioView)
    requires
        spec_line_size(spec_from_raw(v.format), v.channels as int, v.samples as int) is Some,
    ensures
        copy_size(v) == spec_line_size(spec_from_raw(v.format), v.channels as int, v.samples as int)->0,
{
}

/// `clone` copies every byte: a frame of the shape that `new` makes for its format, sample
/// count and layout (known format code, known channels, channel count from the layout, a
/// computed plane size and its planes), holding any bytes at all, has a clone identical to
/// it.
pub proof fn law_clone_keeps_every_byte(v: AudioView)
    requires
        view_wf(v),
        spec_raw(spec_from_raw(v.format)) == v.format,
        v.channel_layout & ALL_CHANNELS == v.channel_layout,
        v.channels == count_ones(v.channel_layout as nat),
        spec_line_size(spec_from_raw(v.format), v.channels as int, v.samples as int) == Some(
            v.linesize as int,
        ),
        v.data.len() == buffer_planes(v, v.channels),
    ensures
        copy_fits(spec_clone_base(v), v),
        spec_clone(v) == v,
{
    let f = spec_from_raw(v.format);
    let s = v.samples;
    let layout = v.channel_layout;
    let b = spec_clone_base(v);
    lemma_from_raw_of_raw(f);
    lemma_count_ones_u64(layout);
    lemma_line_size_range(f, v.channels as int, s as int);
    assert(((s as usize) as i32) == s) by (bit_vector);
    law_new_frame_shape(f, s as usize, layout);
    assert(b == spec_alloc(empty_view(), f, s as usize, layout));
    assert(v.format >= 0 && s > 0 && v.channels > 0);
    if layout == 0 {
        assert(count_ones(0) == 0);
    }
    assert(b.data.len() > 0);
    assert(b.linesize == v.linesize);
    assert(b.channels == v.channels);
    law_copy_size_is_plane_size(b);
    assert(copy_size(b) == v.linesize);
    assert(copy_applies(b, v));
    assert(spec_copy(b, v).data =~~= v.data);
    assert(spec_clone(v) =~~= v);
}

/// The text of a format is its element type's name and, in brackets, its packing; no
/// format reads `None`.
pub proof fn law_format_text()
    ensures
        format_text(SampleFormat::NoFormat) == seq!['N', 'o', 'n', 'e'],
        format_text(SampleFormat::U8(Type::Packed)) == seq!['U', '8'] + seq!['('] + seq!['P', 'a', 'c', 'k', 'e', 'd'] + seq![')'],
        format_text(SampleFormat::U8(Type::Planar)) == seq!['U', '8'] + seq!['('] + seq!['P', 'l', 'a', 'n', 'a', 'r'] + seq![')'],
        format_text(SampleFormat::I16(Type::Packed)) == seq!['I', '1', '6'] + seq!['('] + seq!['P', 'a', 'c', 'k', 'e', 'd'] + seq![')'],
        format_text(SampleFormat::I16(Type::Planar)) == seq!['I', '1', '6'] + seq!['('] + seq!['P', 'l', 'a', 'n', 'a', 'r'] + seq![')'],
        format_text(SampleFormat::I32(Type::Packed)) == seq!['I', '3', '2'] + seq!['('] + seq!['P', 'a', 'c', 'k', 'e', 'd'] + seq![')'],
        format_text(SampleFormat::I32(Type::Planar)) == seq!['I', '3', '2'] + seq!['('] + seq!['P', 'l', 'a', 'n', 'a', 'r'] + seq![')'],
        format_text(SampleFormat::F32(Type::Packed)) == seq!['F', '3', '2'] + seq!['('] + seq!['P', 'a', 'c', 'k', 'e', 'd'] + seq![')'],
        format_text(SampleFormat::F32(Type::Planar)) == seq!['F', '3', '2'] + seq!['('] + seq!['P', 'l', 'a', 'n', 'a', 'r'] + seq![')'],
        format_text(SampleFormat::F64(Type::Packed)) == seq!['F', '6', '4'] + seq!['('] + seq!['P', 'a', 'c', 'k', 'e', 'd'] + seq![')'],
        format_text(SampleFormat::F64(Type::Planar)) == seq!['F', '6', '4'] + seq!['('] + seq!['P', 'l', 'a', 'n', 'a', 'r'] + seq![')'],
{
    reveal_strlit("None");
    reveal_strlit("U8(Packed)");
    reveal_strlit("U8(Planar)");
    reveal_strlit("I16(Packed)");
    reveal_strlit("I16(Planar)");
    reveal_strlit("I32(Packed)");
    reveal_strlit("I32(Planar)");
    reveal_strlit("F32(Packed)");
    reveal_strlit("F32(Planar)");
    reveal_strlit("F64(Packed)");
    reveal_strlit("F64(Planar)");
    assert(format_text(SampleFormat::NoFormat) =~= seq!['N', 'o', 'n', 'e']);
    assert(format_text(SampleFormat::U8(Type::Packed)) =~= seq!['U', '8'] + seq!['('] + seq!['P', 'a', 'c', 'k', 'e', 'd'] + seq![')']);
    assert(format_text(SampleFormat::U8(Type::Planar)) =~= seq!['U', '8'] + seq!['('] + seq!['P', 'l', 'a', 'n', 'a', 'r'] + seq![')']);
    assert(format_text(SampleFormat::I16(Type::Packed)) =~= seq!['I', '1', '6'] + seq!['('] + seq!['P', 'a', 'c', 'k', 'e', 'd'] + seq![')']);
    assert(format_text(SampleFormat::I16(Type::Planar)) =~= seq!['I', '1', '6'] + seq!['('] + seq!['P', 'l', 'a', 'n', 'a', 'r'] + seq![')']);
    assert(format_text(SampleFormat::I32(Type::Packed)) =~= seq!['I', '3', '2'] + seq!['('] + seq!['P', 'a', 'c', 'k', 'e', 'd'] + seq![')']);
    assert(format_text(SampleFormat::I32(Type::Planar)) =~= seq!['I', '3', '2'] + seq!['('] + seq!['P', 'l', 'a', 'n', 'a', 'r'] + seq![')']);
    assert(format_text(SampleFormat::F32(Type::Packed)) =~= seq!['F', '3', '2'] + seq!['('] + seq!['P', 'a', 'c', 'k', 'e', 'd'] + seq![')']);
    assert(format_text(SampleFormat::F32(Type::Planar)) =~= seq!['F', '3', '2'] + seq!['('] + seq!['P', 'l', 'a', 'n', 'a', 'r'] + seq![')']);
    assert(format_text(SampleFormat::F64(Type::Packed)) =~= seq!['F', '6', '4'] + seq!['('] + seq!['P', 'a', 'c', 'k', 'e', 'd'] + seq![')']);
    assert(format_text(SampleFormat::F64(Type::Planar)) =~= seq!['F', '6', '4'] + seq!['('] + seq!['P', 'l', 'a', 'n', 'a', 'r'] + seq![')']);
}

/// A plane size can be computed exactly when the format is set, the channel and sample
/// counts are positive, and the whole buffer (the samples of every channel) plus one byte
/// per channel fits in a C `int`; it is then the bytes of one channel's samples for a
/// planar format, and of every channel's samples for a packed one.
pub proof fn law_line_size(s: SampleFormat, channels: int, samples: int)
    ensures
        spec_line_size(s, channels, samples) is Some <==> (s != SampleFormat::NoFormat
            && channels > 0 && samples > 0 && channels * samples * spec_bytes(s) + channels
            <= INT_MAX),
        spec_line_size(s, channels, samples) matches Some(l) ==> l == samples * spec_bytes(s) * (
        if spec_is_planar(s) {
            1
        } else {
            channels
        }),
{
    let size = spec_bytes(s);
    law_element_of(s, Type::Packed);
    if s != SampleFormat::NoFormat && channels > 0 && samples > 0 {
        assert(size > 0);
        let q = (INT_MAX - channels) / size;
        assert((channels * samples > q) <==> (channels * samples * size > INT_MAX - channels))
            by (nonlinear_arith)
            requires
                size > 0,
                q == (INT_MAX - channels) / size,
        ;
    }
}

/// The element type of one sample value.
#[derive(Clone, Copy, Debug, PartialEq, Eq, Structural)]
pub enum Element {
    U8,
    I16,
    I32,
    F32,
    F64,
}

/// The size in bytes of one value of an element type.
pub open spec fn element_bytes(element: Element) -> nat {
    match element {
        Element::U8 => 1,
        Element::I16 => 2,
        Element::I32 => 4,
        Element::F32 => 4,
        Element::F64 => 8,
    }
}

/// The element type of the samples of a format; none for no format.
pub open spec fn element_of(format: SampleFormat) -> Option<Element> {
    match format {
        SampleFormat::NoFormat => None,
        SampleFormat::U8(_) => Some(Element::U8),
        SampleFormat::I16(_) => Some(Element::I16),
        SampleFormat::I32(_) => Some(Element::I32),
        SampleFormat::F32(_) => Some(Element::F32),
        SampleFormat::F64(_) => Some(Element::F64),
    }
}

/// The packed format whose samples have the element type `element`.
pub open spec fn packed_format(element: Element) -> SampleFormat {
    match element {
        Element::U8 => SampleFormat::U8(Type::Packed),
        Element::I16 => SampleFormat::I16(Type::Packed),
        Element::I32 => SampleFormat::I32(Type::Packed),
        Element::F32 => SampleFormat::F32(Type::Packed),
        Element::F64 => SampleFormat::F64(Type::Packed),
    }
}

/// Whether a sample type of `arity` values of type `element` fits a frame of the given
/// format and channel count: a single value fits every format of its element type,
/// packed or planar; a tuple of `n` values fits exactly the packed format of its
/// element type with `n` channels.
pub open spec fn layout_fits(element: Element, arity: nat, format: SampleFormat, channels: u16) -> bool {
    if arity == 1 {
        element_of(format) == Some(element)
    } else {
        channels as nat == arity && format == packed_format(element)
    }
}

/// Whether a sample type of `arity` values of type `element` fits a frame of the given
/// format and channel count (see `layout_fits`); the rule that every `Sample` type
/// follows, for any element type.
pub fn fits(element: Element, arity: u16, format: SampleFormat, channels: u16) -> (r: bool)
    requires
        1 <= arity <= 7,
    ensures
        r == layout_fits(element, arity as nat, format, channels),
{
    if arity == 1 {
        match (element, format) {
            (Element::U8, SampleFormat::U8(..)) => true,
            (Element::I16, SampleFormat::I16(..)) => true,
            (Element::I32, SampleFormat::I32(..)) => true,
            (Element::F32, SampleFormat::F32(..)) => true,
            (Element::F64, SampleFormat::F64(..)) => true,
            _ => false,
        }
    } else {
        let packed = match element {
            Element::U8 => SampleFormat::U8(Type::Packed),
            Element::I16 => SampleFormat::I16(Type::Packed),
            Element::I32 => SampleFormat::I32(Type::Packed),
            Element::F32 => SampleFormat::F32(Type::Packed),
            Element::F64 => SampleFormat::F64(Type::Packed),
        };
        channels == arity && format == packed
    }
}

/// A type whose values are the samples of a plane.
pub trait Sample {
    /// The element type of each value.
    spec fn element() -> Element;

    /// The number of values in one sample.
    spec fn arity() -> nat;

    /// Whether the type fits a frame of the given format and channel count.
    fn is_valid(format: SampleFormat, channels: u16) -> (r: bool)
        ensures
            r == layout_fits(Self::element(), Self::arity(), format, channels),
    ;

    /// The size in bytes of one sample: `arity()` values of `element()`.
    fn size() -> (r: usize)
        ensures
            r == element_bytes(Self::element()) * Self::arity(),
    ;
}

/// The number of bytes that `plane::<T>` gives of a frame: `samples * T::size()` values
/// of `T`, each `T::size()` bytes.
pub open spec fn plane_len<T: Sample>(v: AudioView) -> int {
    v.samples * sample_bytes::<T>() * sample_bytes::<T>()
}

/// The size in bytes of one sample of type `T`.
pub open spec fn sample_bytes<T: Sample>() -> int {
    (element_bytes(T::element()) * T::arity()) as int
}

impl Sample for u8 {
    open spec fn element() -> Element {
        Element::U8
    }

    open spec fn arity() -> nat {
        1
    }

    fn is_valid(format: SampleFormat, _channels: u16) -> (r: bool) {
        if let SampleFormat::U8(..) = format {
            true
        } else {
            false
        }
    }

    fn size() -> (r: usize) {
        1
    }
}

impl Sample for (u8, u8) {
    open spec fn element() -> Element {
        Element::U8
    }

    open spec fn arity() -> nat {
        2
    }

    fn is_valid(format: SampleFormat, channels: u16) -> (r: bool) {
        channels == 2 && format == SampleFormat::U8(Type::Packed)
    }

    fn size() -> (r: usize) {
        2
    }
}

impl Sample for (u8, u8, u8) {
    open spec fn element() -> Element {
        Element::U8
    }

    open spec fn arity() -> nat {
        3
    }

    fn is_valid(format: SampleFormat, channels: u16) -> (r: bool) {
        channels == 3 && format == SampleFormat::U8(Type::Packed)
    }

    fn size() -> (r: usize) {
        3
    }
}

impl Sample for (u8, u8, u8, u8) {
    open spec fn element() -> Element {
        Element::U8
    }

    open spec fn arity() -> nat {
        4
    }

    fn is_valid(format: SampleFormat, channels: u16) -> (r: bool) {
        channels == 4 && format == SampleFormat::U8(Type::Packed)
    }

    fn size() -> (r: usize) {
        4
    }
}

impl Sample for (u8, u8, u8, u8, u8) {
    open spec fn element() -> Element {
        Element::U8
    }

    open spec fn arity() -> nat {
        5
    }

    fn is_valid(format: SampleFormat, channels: u16) -> (r: bool) {
        channels == 5 && format == SampleFormat::U8(Type::Packed)
    }

    fn size() -> (r: usize) {
        5
    }
}

impl Sample for (u8, u8, u8, u8, u8, u8) {
    open spec fn element() -> Element {
        Element::U8
    }

    open spec fn arity() -> nat {
        6
    }

    fn is_valid(format: SampleFormat, channels: u16) -> (r: bool) {
        channels == 6 && format == SampleFormat::U8(Type::Packed)
    }

    fn size() -> (r: usize) {
        6
    }
}

impl Sample for (u8, u8, u8, u8, u8, u8, u8) {
    open spec fn element() -> Element {
        Element::U8
    }

    open spec fn arity() -> nat {
        7
    }

    fn is_valid(format: SampleFormat, channels: u16) -> (r: bool) {
        channels == 7 && format == SampleFormat::U8(Type::Packed)
    }

    fn size() -> (r: usize) {
        7
    }
}

impl Sample for i16 {
    open spec fn element() -> Element {
        Element::I16
    }

    open spec fn arity() -> nat {
        1
    }

    fn is_valid(format: SampleFormat, _channels: u16) -> (r: bool) {
        if let SampleFormat::I16(..) = format {
            true
        } else {
            false
        }
    }

    fn size() -> (r: usize) {
        2
    }
}

impl Sample for (i16, i16) {
    open spec fn element() -> Element {
        Element::I16
    }

    open spec fn arity() -> nat {
        2
    }

    fn is_valid(format: SampleFormat, channels: u16) -> (r: bool) {
        channels == 2 && format == SampleFormat::I16(Type::Packed)
    }

    fn size() -> (r: usize) {
        4
    }
}

impl Sample for (i16, i16, i16) {
    open spec fn element() -> Element {
        Element::I16
    }

    open spec fn arity() -> nat {
        3
    }

    fn is_valid(format: SampleFormat, channels: u16) -> (r: bool) {
        channels == 3 && format == SampleFormat::I16(Type::Packed)
    }

    fn size() -> (r: usize) {
        6
    }
}

impl Sample for (i16, i16, i16, i16) {
    open spec fn element() -> Element {
        Element::I16
    }

    open spec fn arity() -> nat {
        4
    }

    fn is_valid(format: SampleFormat, channels: u16) -> (r: bool) {
        channels == 4 && format == SampleFormat::I16(Type::Packed)
    }

    fn size() -> (r: usize) {
        8
    }
}

impl Sample for (i16, i16, i16, i16, i16) {
    open spec fn element() -> Element {
        Element::I16
    }

    open spec fn arity() -> nat {
        5
    }

    fn is_valid(format: SampleFormat, channels: u16) -> (r: bool) {
        channels == 5 && format == SampleFormat::I16(Type::Packed)
    }

    fn size() -> (r: usize) {
        10
    }
}

impl Sample for (i16, i16, i16, i16, i16, i16) {
    open spec fn element() -> Element {
        Element::I16
    }

    open spec fn arity() -> nat {
        6
    }

    fn is_valid(format: SampleFormat, channels: u16) -> (r: bool) {
        channels == 6 && format == SampleFormat::I16(Type::Packed)
    }

    fn size() -> (r: usize) {
        12
    }
}

impl Sample for (i16, i16, i16, i16, i16, i16, i16) {
    open spec fn element() -> Element {
        Element::I16
    }

    open spec fn arity() -> nat {
        7
    }

    fn is_valid(format: SampleFormat, channels: u16) -> (r: bool) {
        channels == 7 && format == SampleFormat::I16(Type::Packed)
    }

    fn size() -> (r: usize) {
        14
    }
}

impl Sample for i32 {
    open spec fn element() -> Element {
        Element::I32
    }

    open spec fn arity() -> nat {
        1
    }

    fn is_valid(format: SampleFormat, _channels: u16) -> (r: bool) {
        if let SampleFormat::I32(..) = format {
            true
        } else {
            false
        }
    }

    fn size() -> (r: usize) {
        4
    }
}

impl Sample for (i32, i32) {
    open spec fn element() -> Element {
        Element::I32
    }

    open spec fn arity() -> nat {
        2
    }

    fn is_valid(format: SampleFormat, channels: u16) -> (r: bool) {
        channels == 2 && format == SampleFormat::I32(Type::Packed)
    }

    fn size() -> (r: usize) {
        8
    }
}

impl Sample for (i32, i32, i32) {
    open spec fn element() -> Element {
        Element::I32
    }

    open spec fn arity() -> nat {
        3
    }

    fn is_valid(format: SampleFormat, channels: u16) -> (r: bool) {
        channels == 3 && format == SampleFormat::I32(Type::Packed)
    }

    fn size() -> (r: usize) {
        12
    }
}

impl Sample for (i32, i32, i32, i32) {
    open spec fn element() -> Element {
        Element::I32
    }

    open spec fn arity() -> nat {
        4
    }

    fn is_valid(format: SampleFormat, channels: u16) -> (r: bool) {
        channels == 4 && format == SampleFormat::I32(Type::Packed)
    }

    fn size() -> (r: usize) {
        16
    }
}

impl Sample for (i32, i32, i32, i32, i32) {
    open spec fn element() -> Element {
        Element::I32
    }

    open spec fn arity() -> nat {
        5
    }

    fn is_valid(format: SampleFormat, channels: u16) -> (r: bool) {
        channels == 5 && format == SampleFormat::I32(Type::Packed)
    }

    fn size() -> (r: usize) {
        20
    }
}

impl Sample for (i32, i32, i32, i32, i32, i32) {
    open spec fn element() -> Element {
        Element::I32
    }

    open spec fn arity() -> nat {
        6
    }

    fn is_valid(format: SampleFormat, channels: u16) -> (r: bool) {
        channels == 6 && format == SampleFormat::I32(Type::Packed)
    }

    fn size() -> (r: usize) {
        24
    }
}

impl Sample for (i32, i32, i32, i32, i32, i32, i32) {
    open spec fn element() -> Element {
        Element::I32
    }

    open spec fn arity() -> nat {
        7
    }

    fn is_valid(format: SampleFormat, channels: u16) -> (r: bool) {
        channels == 7 && format == SampleFormat::I32(Type::Packed)
    }

    fn size() -> (r: usize) {
        28
    }
}

} // verus!
