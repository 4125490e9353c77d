pub mod audio;

pub use self::audio::Audio;
