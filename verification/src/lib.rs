pub mod blocks;
pub mod filter;
pub mod gui_size;
pub mod kubyz;
pub mod labels;
pub mod limiter;
pub mod looper;
pub mod midi;
pub mod nam;
pub mod text;
pub mod voices;
