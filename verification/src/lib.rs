//! Audio frames and codec flags of the FFmpeg bindings, as verified plain-value models.
pub mod codec;
pub mod util;

pub use util::channel_layout::ChannelLayout;
