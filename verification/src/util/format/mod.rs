pub mod sample;

pub use self::sample::Sample;
