use ffmpeg::util::format::sample::Type;
use ffmpeg::util::format::Sample;

const ALL: [Sample; 11] = [
    Sample::NoFormat,
    Sample::U8(Type::Packed),
    Sample::I16(Type::Packed),
    Sample::I32(Type::Packed),
    Sample::F32(Type::Packed),
    Sample::F64(Type::Packed),
    Sample::U8(Type::Planar),
    Sample::I16(Type::Planar),
    Sample::I32(Type::Planar),
    Sample::F32(Type::Planar),
    Sample::F64(Type::Planar),
];

#[test]
fn raw_codes_follow_the_sample_format_table() {
    let codes: Vec<i32> = ALL.iter().map(|s| s.raw()).collect();
    assert_eq!(codes, vec![-1, 0, 1, 2, 3, 4, 5, 6, 7, 8, 9]);
}

#[test]
fn every_format_survives_its_raw_code() {
    for s in ALL.iter() {
        assert_eq!(Sample::from_raw(s.raw()), *s);
    }
}

#[test]
fn every_known_code_survives_its_format() {
    for raw in -1..=9 {
        assert_eq!(Sample::from_raw(raw).raw(), raw);
    }
}

#[test]
fn unknown_codes_name_no_format() {
    assert_eq!(Sample::from_raw(10), Sample::NoFormat);
    assert_eq!(Sample::from_raw(11), Sample::NoFormat);
    assert_eq!(Sample::from_raw(-2), Sample::NoFormat);
    assert_eq!(Sample::from_raw(i32::MAX), Sample::NoFormat);
}

#[test]
fn planar_and_packed_are_opposites() {
    assert!(Sample::F32(Type::Planar).is_planar());
    assert!(!Sample::F32(Type::Planar).is_packed());
    assert!(Sample::I16(Type::Packed).is_packed());
    assert!(!Sample::NoFormat.is_planar());
    assert!(Sample::NoFormat.is_packed());
    for s in ALL.iter() {
        assert_eq!(s.is_packed(), !s.is_planar());
    }
}

#[test]
fn bytes_per_sample() {
    assert_eq!(Sample::NoFormat.bytes(), 0);
    assert_eq!(Sample::U8(Type::Planar).bytes(), 1);
    assert_eq!(Sample::I16(Type::Packed).bytes(), 2);
    assert_eq!(Sample::I32(Type::Packed).bytes(), 4);
    assert_eq!(Sample::F32(Type::Planar).bytes(), 4);
    assert_eq!(Sample::F64(Type::Packed).bytes(), 8);
}
