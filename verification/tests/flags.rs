use ffmpeg::codec::flag::{Flags, ALL_FLAGS, GRAY};
use ffmpeg::util::channel_layout::{nb_channels, ALL_CHANNELS};
use ffmpeg::ChannelLayout;

#[test]
fn gray_is_bit_thirteen() {
    assert_eq!(GRAY, 0x2000);
    assert_eq!(Flags::all().bits(), ALL_FLAGS);
    assert_eq!(Flags::empty().bits(), 0);
}

#[test]
fn from_bits_accepts_only_known_flags() {
    assert_eq!(Flags::from_bits(GRAY).map(|f| f.bits()), Some(GRAY));
    assert_eq!(Flags::from_bits(0).map(|f| f.bits()), Some(0));
    assert!(Flags::from_bits(1).is_none());
    assert!(Flags::from_bits(GRAY | 4).is_none());
}

#[test]
fn from_bits_truncate_drops_unknown_bits() {
    assert_eq!(Flags::from_bits_truncate(0x2001).bits(), GRAY);
    assert_eq!(Flags::from_bits_truncate(-1).bits(), GRAY);
    assert_eq!(Flags::from_bits_truncate(0x1fff).bits(), 0);
    let f = Flags::from_bits_truncate(GRAY);
    assert_eq!(Flags::from_bits_truncate(f.bits()), f);
}

#[test]
fn insert_remove_toggle() {
    let gray = Flags::from_bits_truncate(GRAY);
    let mut f = Flags::empty();
    assert!(f.is_empty());
    assert!(!f.contains(gray));
    f.insert(gray);
    assert!(f.contains(gray));
    assert!(f.is_all());
    assert!(f.intersects(gray));
    f.remove(gray);
    assert!(!f.intersects(gray));
    assert!(f.is_empty());
    f.toggle(gray);
    assert!(f.contains(gray));
    f.toggle(gray);
    assert_eq!(f, Flags::empty());
}

#[test]
fn every_set_contains_the_empty_set() {
    assert!(Flags::all().contains(Flags::empty()));
    assert!(Flags::empty().contains(Flags::empty()));
    assert!(!Flags::all().intersects(Flags::empty()));
}

#[test]
fn channel_layout_truncation() {
    assert_eq!(ALL_CHANNELS, 0x8000_000F_E003_FFFF);
    assert_eq!(ChannelLayout::from_bits_truncate(0x3).bits(), 0x3);
    assert_eq!(ChannelLayout::from_bits_truncate(0x0004_0000).bits(), 0);
    assert_eq!(ChannelLayout::from_bits_truncate(u64::MAX).bits(), ALL_CHANNELS);
    assert_eq!(ChannelLayout::all().bits(), ALL_CHANNELS);
    assert_eq!(ChannelLayout::empty().bits(), 0);
    let l = ChannelLayout::from_bits_truncate(0x60F);
    assert_eq!(ChannelLayout::from_bits_truncate(l.bits()), l);
}

#[test]
fn channel_counts() {
    assert_eq!(nb_channels(0), 0);
    assert_eq!(nb_channels(0x3), 2);
    assert_eq!(nb_channels(0x3F), 6);
    assert_eq!(nb_channels(0x8000_0000_0000_0001), 2);
    assert_eq!(nb_channels(u64::MAX), 64);
}
