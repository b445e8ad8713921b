pub mod error;
pub mod frame_state;
pub mod keyframes;
pub mod model;
pub mod time_mapping;
pub mod text_layout;
pub mod normalize;
