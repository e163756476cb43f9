//! Assembly of a horizontal sprite-font strip from per-character glyph bitmaps.
//!
//! The library lays glyphs out (fixed-width cells for the atlas, packed advances
//! for the preview), composes the canvas pixel by pixel, and writes the spacing
//! descriptor that groups characters by advance width. Reading glyph files and
//! writing results is left to the caller, which hands over one `GlyphLookup` per
//! requested character.

pub mod glyph;
pub mod layout;
pub mod canvas;
pub mod text;
pub mod descriptor;
pub mod api;
pub mod encode;

pub use glyph::{Glyph, GlyphLookup, FontError, LoadPolicy, resolve_glyphs};
pub use layout::{Placement, LayoutPlan, plan_atlas, plan_preview, find_override};
pub use canvas::compose;
pub use descriptor::{group_by_advance, format_config};
pub use api::{
    CharacterInfo, LoadImagesRequest, LoadImagesResponse, GenerateSpriteFontRequest,
    GenerateSpriteFontResponse, PreviewRequest, PreviewResponse, SpriteSheet, PreviewCanvas,
    load_character_images, generate_sprite_font, preview_canvas, preview_response, encode_preview,
    generate_preview,
};
