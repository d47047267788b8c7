pub mod image_data;
pub mod light_path;
pub mod path_laws;

pub use image_data::Image;
pub use light_path::{Bounce, Event, LightPath, PathEnd, PathModel, Step};
