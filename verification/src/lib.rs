//! A multi-tier caching layer for text layout in an immediate-mode rendering
//! loop: a per-frame layout-result cache with generation-based eviction, a
//! per-pixel-scale font-implementation cache with per-font tweaks, and a
//! top-level manager that rebuilds all cached state when the display scale,
//! the texture size limit, or the atlas fill ratio invalidates it.
//!
//! Scalar quantities that callers usually express as fractional values
//! (pixels per point, point sizes, tweak factors) are carried as integers in
//! thousandths ("milli" units), so every derivation is exact and
//! deterministic.

pub mod assoc;
pub mod atlas;
pub mod errors;
pub mod impl_cache;
pub mod laws;
pub mod font_source;
pub mod font_types;
pub mod galley;
pub mod manager;
pub mod rasterize;
pub mod shared;
pub mod scale;

pub use font_types::FontData;
pub use font_types::FontDefinitions;
pub use font_types::FontId;
pub use font_types::FontTweak;
pub use font_types::FontType;
