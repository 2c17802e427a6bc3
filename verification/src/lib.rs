pub mod font;
pub mod font_brush;
pub mod hal;
pub mod image_res;
pub mod image_texture_load;
pub mod svg;
pub mod texture;

pub use hal::Arg;
