use ffmpeg::util::format::sample::Type;
use ffmpeg::util::format::Sample as Format;
use ffmpeg::util::frame::audio::{fits, Element, Sample};
use ffmpeg::util::frame::Audio;
use ffmpeg::ChannelLayout;

const STEREO: u64 = 0x3;
const SURROUND_5_1: u64 = 0x3F;

fn stereo() -> ChannelLayout {
    ChannelLayout::from_bits_truncate(STEREO)
}

#[test]
fn empty_frame_has_nothing() {
    let frame = Audio::empty();
    assert_eq!(frame.format(), Format::NoFormat);
    assert_eq!(frame.channel_layout().bits(), 0);
    assert_eq!(frame.channels(), 0);
    assert_eq!(frame.rate(), 0);
    assert_eq!(frame.samples(), 0);
    assert_eq!(frame.planes(), 0);
    assert!(frame.data().is_empty());
}

#[test]
fn new_packed_frame_has_one_interleaved_plane() {
    let frame = Audio::new(Format::I16(Type::Packed), 1024, stereo());
    assert_eq!(frame.format(), Format::I16(Type::Packed));
    assert_eq!(frame.samples(), 1024);
    assert_eq!(frame.channels(), 2);
    assert_eq!(frame.channel_layout().bits(), STEREO);
    assert!(frame.is_packed());
    assert_eq!(frame.planes(), 1);
    let data = frame.data();
    assert_eq!(data.len(), 1);
    assert_eq!(data[0].len(), 1024 * 2 * 2);
    assert!(data[0].iter().all(|b| *b == 0));
}

#[test]
fn new_planar_frame_has_one_plane_per_channel() {
    let frame = Audio::new(Format::F32(Type::Planar), 480, ChannelLayout::from_bits_truncate(SURROUND_5_1));
    assert!(frame.is_planar());
    assert_eq!(frame.channels(), 6);
    assert_eq!(frame.planes(), 6);
    let data = frame.data();
    assert_eq!(data.len(), 6);
    for plane in data.iter() {
        assert_eq!(plane.len(), 480 * 4);
    }
}

#[test]
fn new_frame_without_format_has_no_buffer() {
    let frame = Audio::new(Format::NoFormat, 1024, stereo());
    assert_eq!(frame.format(), Format::NoFormat);
    assert_eq!(frame.planes(), 0);
    assert_eq!(frame.channels(), 0);
}

#[test]
fn new_frame_without_samples_has_no_buffer() {
    let frame = Audio::new(Format::U8(Type::Packed), 0, stereo());
    assert_eq!(frame.planes(), 0);
    assert_eq!(frame.channels(), 0);
}

#[test]
fn new_frame_without_channels_has_no_buffer() {
    let frame = Audio::new(Format::U8(Type::Packed), 64, ChannelLayout::empty());
    assert_eq!(frame.planes(), 0);
    assert_eq!(frame.channels(), 0);
}

#[test]
fn new_frame_too_large_for_an_int_has_no_buffer() {
    // 2 channels * 2^28 samples * 8 bytes = 2^32 bytes, beyond a C int.
    let frame = Audio::new(Format::F64(Type::Packed), 0x1000_0000, stereo());
    assert_eq!(frame.planes(), 0);
    assert_eq!(frame.channels(), 2);
    assert_eq!(frame.samples(), 0x1000_0000);
}

#[test]
fn allocating_again_keeps_the_plane_size() {
    let mut frame = Audio::new(Format::U8(Type::Packed), 4, stereo());
    assert_eq!(frame.data()[0].len(), 8);
    frame.allocate(Format::U8(Type::Planar), 100, stereo());
    assert_eq!(frame.samples(), 100);
    assert_eq!(frame.planes(), 2);
    let data = frame.data();
    assert_eq!(data.len(), 2);
    assert_eq!(data[0].len(), 8);
    assert_eq!(data[1].len(), 8);
}

#[test]
fn setters_round_trip() {
    let mut frame = Audio::empty();
    frame.set_format(Format::F64(Type::Planar));
    assert_eq!(frame.format(), Format::F64(Type::Planar));
    frame.set_channel_layout(ChannelLayout::from_bits_truncate(SURROUND_5_1));
    assert_eq!(frame.channel_layout().bits(), SURROUND_5_1);
    frame.set_channels(65535);
    assert_eq!(frame.channels(), 65535);
    frame.set_rate(48000);
    assert_eq!(frame.rate(), 48000);
    frame.set_rate(u32::MAX);
    assert_eq!(frame.rate(), u32::MAX);
    frame.set_samples(0x7fff_ffff);
    assert_eq!(frame.samples(), 0x7fff_ffff);
    // Setting one field leaves the others alone.
    assert_eq!(frame.format(), Format::F64(Type::Planar));
    assert_eq!(frame.channels(), 65535);
}

#[test]
fn sample_count_beyond_an_int_does_not_round_trip() {
    let mut frame = Audio::empty();
    frame.set_samples(0x8000_0000);
    assert_eq!(frame.samples(), (-0x8000_0000i64) as usize);
    frame.set_samples(0x1_0000_0005);
    assert_eq!(frame.samples(), 5);
}

#[test]
fn raw_layout_bits_outside_known_channels_are_dropped() {
    let frame = Audio::from_parts(-1, 0x0010_0000_0000_0003, 0, 0, 0, 0, Vec::new());
    assert_eq!(frame.channel_layout().bits(), STEREO);
}

#[test]
fn unknown_raw_format_reads_as_no_format() {
    let frame = Audio::from_parts(10, 0, 0, 0, 0, 0, Vec::new());
    assert_eq!(frame.format(), Format::NoFormat);
}

#[test]
fn planes_of_a_frame_without_buffer_is_zero() {
    let frame = Audio::from_parts(5, STEREO, 2, 44100, 16, 0, Vec::new());
    assert!(frame.is_planar());
    assert_eq!(frame.planes(), 0);
}

#[test]
fn planes_follow_the_16_bit_channel_count() {
    let frame = Audio::from_parts(5, STEREO, 0x1_0002, 44100, 16, 16, Vec::new());
    assert_eq!(frame.channels(), 2);
    assert_eq!(frame.planes(), 2);
}

#[test]
fn plane_gives_the_bytes_of_one_plane() {
    let left: Vec<u8> = vec![1, 2, 3, 4];
    let right: Vec<u8> = vec![5, 6, 7, 8];
    let frame = Audio::from_parts(5, STEREO, 2, 44100, 4, 4, vec![left.clone(), right.clone()]);
    assert_eq!(frame.plane::<u8>(0), &left[..]);
    assert_eq!(frame.plane::<u8>(1), &right[..]);
}

#[test]
fn plane_of_bytes_covers_samples_bytes() {
    // Packed stereo, 4 samples: the plane holds 8 bytes; as `u8` it gives 4 of them.
    let frame = Audio::from_parts(0, STEREO, 2, 8000, 4, 8, vec![vec![1, 2, 3, 4, 5, 6, 7, 8]]);
    assert_eq!(frame.plane::<u8>(0), &[1u8, 2, 3, 4][..]);
}

#[test]
fn plane_of_wider_samples_covers_size_times_samples_values() {
    // As stereo pairs, 4 samples give 2 * 4 pairs of 2 bytes: 16 bytes.
    let pairs = Audio::from_parts(0, STEREO, 2, 8000, 4, 16, vec![vec![3; 16]]);
    assert_eq!(pairs.plane::<(u8, u8)>(0).len(), 16);
    // As `i16`, 3 samples give 2 * 3 values of 2 bytes: 12 bytes.
    let planar = Audio::from_parts(6, STEREO, 2, 8000, 3, 12, vec![vec![0; 12], vec![1; 12]]);
    assert_eq!(planar.plane::<i16>(1), &[1u8; 12][..]);
    // As `i32`, 5 samples give 4 * 5 values of 4 bytes: 80 bytes; as pairs, 320 bytes.
    let packed = Audio::from_parts(2, STEREO, 2, 8000, 5, 320, vec![vec![0; 320]]);
    assert_eq!(packed.plane::<i32>(0).len(), 80);
    assert_eq!(packed.plane::<(i32, i32)>(0).len(), 320);
}

#[test]
fn plane_mut_gives_the_same_bytes() {
    let mut frame = Audio::from_parts(0, STEREO, 2, 8000, 1, 4, vec![vec![9, 8, 7, 6]]);
    assert_eq!(frame.plane_mut::<(u8, u8)>(0), &[9u8, 8, 7, 6][..]);
    assert_eq!(frame.plane_mut::<u8>(0), &[9u8][..]);
    assert_eq!(frame.data()[0], &[9u8, 8, 7, 6][..]);
}

#[test]
fn data_mut_writes_reach_the_frame() {
    let mut frame = Audio::new(Format::I16(Type::Planar), 2, stereo());
    {
        let mut planes = frame.data_mut();
        assert_eq!(planes.len(), 2);
        planes[0][0] = 0x11;
        planes[1][3] = 0x22;
    }
    let data = frame.data();
    assert_eq!(data[0], &[0x11u8, 0, 0, 0][..]);
    assert_eq!(data[1], &[0u8, 0, 0, 0x22][..]);
}

#[test]
fn data_mut_fills_every_plane() {
    let mut frame = Audio::new(Format::U8(Type::Planar), 4, stereo());
    {
        let planes = frame.data_mut();
        assert_eq!(planes.len(), 2);
        assert_eq!(planes[0].len(), 4);
        assert_eq!(planes[1].len(), 4);
        for (i, plane) in planes.into_iter().enumerate() {
            for j in 0..4 {
                plane[j] = (4 * i + j) as u8;
            }
        }
    }
    assert_eq!(frame.data(), vec![&[0u8, 1, 2, 3][..], &[4u8, 5, 6, 7][..]]);
    assert_eq!(frame.channels(), 2);
    assert_eq!(frame.samples(), 4);
}

#[test]
fn data_mut_alone_changes_nothing() {
    let mut frame = Audio::from_parts(0, STEREO, 2, 8000, 2, 4, vec![vec![1, 2, 3, 4]]);
    let planes = frame.data_mut();
    assert_eq!(planes.len(), 1);
    assert_eq!(frame.data(), vec![&[1u8, 2, 3, 4][..]]);
    assert_eq!(frame.rate(), 8000);
}

#[test]
fn single_values_fit_packed_and_planar_formats() {
    assert!(<u8 as Sample>::is_valid(Format::U8(Type::Packed), 2));
    assert!(<u8 as Sample>::is_valid(Format::U8(Type::Planar), 6));
    assert!(!<u8 as Sample>::is_valid(Format::I16(Type::Planar), 1));
    assert!(<i16 as Sample>::is_valid(Format::I16(Type::Planar), 1));
    assert!(<i32 as Sample>::is_valid(Format::I32(Type::Packed), 3));
    assert!(!<i32 as Sample>::is_valid(Format::NoFormat, 1));
}

#[test]
fn tuples_fit_only_packed_formats_with_as_many_channels() {
    assert!(<(u8, u8) as Sample>::is_valid(Format::U8(Type::Packed), 2));
    assert!(!<(u8, u8) as Sample>::is_valid(Format::U8(Type::Planar), 2));
    assert!(!<(u8, u8) as Sample>::is_valid(Format::U8(Type::Packed), 3));
    assert!(<(i16, i16, i16, i16, i16, i16) as Sample>::is_valid(Format::I16(Type::Packed), 6));
    assert!(!<(i16, i16, i16, i16, i16, i16) as Sample>::is_valid(Format::I32(Type::Packed), 6));
    assert!(<(i32, i32, i32, i32, i32, i32, i32) as Sample>::is_valid(Format::I32(Type::Packed), 7));
    assert!(!<(i32, i32, i32) as Sample>::is_valid(Format::I32(Type::Packed), 7));
}

#[test]
fn clone_of_a_new_frame_is_identical() {
    let mut frame = Audio::new(Format::I32(Type::Planar), 3, stereo());
    frame.set_rate(44100);
    let copy = frame.clone();
    assert_eq!(copy.format(), frame.format());
    assert_eq!(copy.samples(), 3);
    assert_eq!(copy.channels(), 2);
    assert_eq!(copy.rate(), 44100);
    assert_eq!(copy.channel_layout(), frame.channel_layout());
    assert_eq!(copy.data(), frame.data());
}

#[test]
fn clone_copies_the_sample_bytes() {
    let frame = Audio::from_parts(0, STEREO, 2, 22050, 4, 8, vec![vec![1, 2, 3, 4, 5, 6, 7, 8]]);
    let copy = frame.clone();
    assert_eq!(copy.planes(), 1);
    assert_eq!(copy.data()[0], &[1u8, 2, 3, 4, 5, 6, 7, 8][..]);
    assert_eq!(copy.rate(), 22050);
}

#[test]
fn clone_from_a_different_shape_copies_only_the_rate() {
    let mut target = Audio::new(Format::U8(Type::Packed), 4, stereo());
    let source = Audio::from_parts(0, 0x4, 1, 96000, 4, 4, vec![vec![9; 4]]);
    target.clone_from(&source);
    assert_eq!(target.rate(), 96000);
    assert_eq!(target.channel_layout().bits(), STEREO);
    assert_eq!(target.channels(), 2);
    assert_eq!(target.data()[0], &[0u8; 8][..]);
}

#[test]
fn clone_is_a_deep_copy() {
    let frame = Audio::new(Format::U8(Type::Packed), 2, stereo());
    let mut copy = frame.clone();
    {
        let mut planes = copy.data_mut();
        planes[0][0] = 7;
    }
    assert_eq!(copy.data()[0], &[7u8, 0, 0, 0][..]);
    assert_eq!(frame.data()[0], &[0u8, 0, 0, 0][..]);
}

#[test]
fn describe_gives_the_debug_text() {
    let mut frame = Audio::new(Format::F32(Type::Planar), 1024, stereo());
    frame.set_rate(44100);
    assert_eq!(
        frame.describe(),
        "ffmpeg::frame::Audio { format: F32(Planar), channels: 2, rate: 44100, samples: 1024 }"
    );
    assert_eq!(
        Audio::empty().describe(),
        "ffmpeg::frame::Audio { format: None, channels: 0, rate: 0, samples: 0 }"
    );
}

#[test]
fn clone_from_copies_only_the_samples_of_each_plane() {
    let mut target = Audio::from_parts(5, STEREO, 2, 0, 2, 4, vec![vec![0; 4], vec![0; 4]]);
    let source = Audio::from_parts(5, STEREO, 2, 8000, 2, 4, vec![vec![1, 2, 3, 4], vec![5, 6, 7, 8]]);
    target.clone_from(&source);
    // Two one-byte samples per plane are copied; the rest of each plane stays.
    assert_eq!(target.data()[0], &[1u8, 2, 0, 0][..]);
    assert_eq!(target.data()[1], &[5u8, 6, 0, 0][..]);
    assert_eq!(target.rate(), 8000);
}

#[test]
fn fits_covers_every_element_type() {
    assert!(fits(Element::F32, 1, Format::F32(Type::Planar), 2));
    assert!(fits(Element::F64, 1, Format::F64(Type::Packed), 1));
    assert!(!fits(Element::F32, 1, Format::F64(Type::Packed), 1));
    assert!(fits(Element::F32, 2, Format::F32(Type::Packed), 2));
    assert!(!fits(Element::F32, 2, Format::F32(Type::Planar), 2));
    assert!(!fits(Element::F64, 5, Format::F64(Type::Packed), 4));
    assert!(fits(Element::U8, 3, Format::U8(Type::Packed), 3));
    assert_eq!(fits(Element::I16, 4, Format::I16(Type::Packed), 4), <(i16, i16, i16, i16) as Sample>::is_valid(Format::I16(Type::Packed), 4));
}
