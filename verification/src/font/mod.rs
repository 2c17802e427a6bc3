pub mod font;
pub mod glyph_table;
pub mod sdf2_table;
pub mod sdf_gpu;
pub mod sdf_table;
pub mod static_sdf_font;
pub mod text_pack;
pub mod text_split;
