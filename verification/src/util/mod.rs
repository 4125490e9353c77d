pub mod channel_layout;
pub mod format;
pub mod frame;
