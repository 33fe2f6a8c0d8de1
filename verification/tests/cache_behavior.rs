//! The caching layer driven end to end: construction, per-frame eviction,
//! invalidation triggers, and memoization, over a small hand-built font.

use std::sync::Arc;

use font_cache::font_types::FontData;
use font_cache::font_types::FontDefinitions;
use font_cache::font_types::FontId;
use font_cache::font_types::FontType;
use font_cache::galley::Color32;
use font_cache::galley::LayoutJob;
use font_cache::manager::FontPaintManager;

/// A minimal font file the parser accepts: the three mandatory tables
/// (`head`, `hhea`, `maxp`) and nothing else, so it covers no characters.
fn minimal_ttf() -> Vec<u8> {
    let mut out: Vec<u8> = Vec::new();
    // sfnt header: TrueType magic, three tables.
    out.extend_from_slice(&0x00010000u32.to_be_bytes());
    out.extend_from_slice(&3u16.to_be_bytes());
    out.extend_from_slice(&[0u8; 6]); // searchRange, entrySelector, rangeShift
    // Table records, sorted by tag; offsets fixed below.
    let head_offset = 12 + 3 * 16;
    let hhea_offset = head_offset + 54;
    let maxp_offset = hhea_offset + 36;
    for (tag, offset, length) in [
        (*b"head", head_offset as u32, 54u32),
        (*b"hhea", hhea_offset as u32, 36u32),
        (*b"maxp", maxp_offset as u32, 6u32),
    ] {
        out.extend_from_slice(&tag);
        out.extend_from_slice(&0u32.to_be_bytes()); // checksum (unchecked)
        out.extend_from_slice(&offset.to_be_bytes());
        out.extend_from_slice(&length.to_be_bytes());
    }
    // head
    out.extend_from_slice(&0x00010000u32.to_be_bytes()); // version
    out.extend_from_slice(&0u32.to_be_bytes()); // font revision
    out.extend_from_slice(&0u32.to_be_bytes()); // checksum adjustment
    out.extend_from_slice(&0x5F0F3CF5u32.to_be_bytes()); // magic
    out.extend_from_slice(&0u16.to_be_bytes()); // flags
    out.extend_from_slice(&1000u16.to_be_bytes()); // units per em
    out.extend_from_slice(&[0u8; 16]); // created + modified
    out.extend_from_slice(&0i16.to_be_bytes()); // xMin
    out.extend_from_slice(&(-200i16).to_be_bytes()); // yMin
    out.extend_from_slice(&500i16.to_be_bytes()); // xMax
    out.extend_from_slice(&800i16.to_be_bytes()); // yMax
    out.extend_from_slice(&0u16.to_be_bytes()); // mac style
    out.extend_from_slice(&8u16.to_be_bytes()); // lowest rec PPEM
    out.extend_from_slice(&2i16.to_be_bytes()); // font direction hint
    out.extend_from_slice(&0u16.to_be_bytes()); // index-to-loc format
    out.extend_from_slice(&0u16.to_be_bytes()); // glyph data format
    // hhea
    out.extend_from_slice(&0x00010000u32.to_be_bytes()); // version
    out.extend_from_slice(&800i16.to_be_bytes()); // ascender
    out.extend_from_slice(&(-200i16).to_be_bytes()); // descender
    out.extend_from_slice(&0i16.to_be_bytes()); // line gap
    out.extend_from_slice(&[0u8; 24]); // advances, extents, reserved
    out.extend_from_slice(&1u16.to_be_bytes()); // number of h metrics
    // maxp (version 0.5)
    out.extend_from_slice(&0x00005000u32.to_be_bytes());
    out.extend_from_slice(&1u16.to_be_bytes()); // number of glyphs
    assert_eq!(out.len(), maxp_offset + 6);
    out
}

fn catalog() -> FontDefinitions {
    FontDefinitions {
        font_data_map: vec![(
            "Ubuntu-Light".to_string(),
            FontData::from_owned(minimal_ttf()),
        )],
        type_fonts: vec![
            (FontType::Proportional, vec!["Ubuntu-Light".to_string()]),
            (FontType::Monospace, vec!["Ubuntu-Light".to_string()]),
        ],
    }
}

fn white() -> Color32 {
    Color32 { r: 255, g: 255, b: 255, a: 255 }
}

fn hi_job() -> LayoutJob {
    LayoutJob::simple("Hi".to_string(), FontId::proportional(14000), white(), 100_000)
}

#[test]
fn concrete_scenario_pixel_scale_28() {
    // Device pixel ratio 2.0, max atlas side 1024, Proportional bound to
    // one font; "Hi" at 14 points resolves one implementation at pixel
    // scale round(2.0 * 14.0) = 28, and a repeat in the same frame reuses
    // everything.
    let mut fonts = FontPaintManager::new(2000, 1024, catalog()).unwrap();
    fonts.begin_frame(2000, 1024);
    assert_eq!(fonts.num_font_impls(), 0);
    let first = fonts.layout_job(hi_job());
    assert_eq!(fonts.num_font_impls(), 1);
    assert_eq!(fonts.num_layouts_computed(), 1);
    let chain = fonts.font(&FontId::proportional(14000));
    assert_eq!(chain.fonts.len(), 1);
    assert_eq!(chain.fonts[0].pixel_scale, 28);
    assert_eq!(chain.fonts[0].name, "Ubuntu-Light");
    let second = fonts.layout_job(hi_job());
    assert!(Arc::ptr_eq(&first, &second));
    assert_eq!(fonts.num_layouts_computed(), 1);
    assert_eq!(fonts.num_font_impls(), 1);
}

#[test]
fn same_frame_layout_is_reference_identical() {
    let mut fonts = FontPaintManager::new(1000, 2048, catalog()).unwrap();
    fonts.begin_frame(1000, 2048);
    let a = fonts.layout_job(hi_job());
    let b = fonts.layout_job(hi_job());
    assert!(Arc::ptr_eq(&a, &b));
    assert_eq!(fonts.num_layouts_computed(), 1);
    assert_eq!(fonts.num_galleys_in_cache(), 1);
}

#[test]
fn entry_unused_for_one_frame_is_evicted() {
    let mut fonts = FontPaintManager::new(1000, 2048, catalog()).unwrap();
    fonts.begin_frame(1000, 2048);
    fonts.layout_job(hi_job());
    assert_eq!(fonts.num_galleys_in_cache(), 1);
    // The entry was used in the frame now ending: it survives.
    fonts.begin_frame(1000, 2048);
    assert_eq!(fonts.num_galleys_in_cache(), 1);
    // Untouched for a full frame: the next step evicts it.
    fonts.begin_frame(1000, 2048);
    assert_eq!(fonts.num_galleys_in_cache(), 0);
}

#[test]
fn entry_used_every_frame_survives() {
    let mut fonts = FontPaintManager::new(1000, 2048, catalog()).unwrap();
    for _ in 0..6 {
        fonts.begin_frame(1000, 2048);
        fonts.layout_job(hi_job());
        assert_eq!(fonts.num_galleys_in_cache(), 1);
    }
    // Still exactly one computation: every later frame was a cache hit.
    assert_eq!(fonts.num_layouts_computed(), 1);
}

#[test]
fn ratio_change_discards_all_cached_state() {
    let mut fonts = FontPaintManager::new(2000, 1024, catalog()).unwrap();
    fonts.begin_frame(2000, 1024);
    fonts.layout_job(hi_job());
    let atlas_before = fonts.texture_atlas().id();
    assert_eq!(fonts.num_font_impls(), 1);
    // 2.000 -> 2.002 changes the ratio by more than 1e-3.
    fonts.begin_frame(2002, 1024);
    assert_eq!(fonts.num_galleys_in_cache(), 0);
    assert_eq!(fonts.num_font_impls(), 0);
    assert_ne!(fonts.texture_atlas().id(), atlas_before);
    assert_eq!(fonts.pixels_per_point(), 2002);
}

#[test]
fn ratio_change_within_epsilon_keeps_caches() {
    let mut fonts = FontPaintManager::new(2000, 1024, catalog()).unwrap();
    fonts.begin_frame(2000, 1024);
    fonts.layout_job(hi_job());
    let atlas_before = fonts.texture_atlas().id();
    // 2.000 -> 2.001 differs by exactly 1e-3: not more, so no rebuild.
    fonts.begin_frame(2001, 1024);
    assert_eq!(fonts.num_font_impls(), 1);
    assert_eq!(fonts.texture_atlas().id(), atlas_before);
    // The pixel ratio itself is kept, as the configuration did not change.
    assert_eq!(fonts.pixels_per_point(), 2000);
}

#[test]
fn texture_side_change_discards_all_cached_state() {
    let mut fonts = FontPaintManager::new(2000, 1024, catalog()).unwrap();
    fonts.begin_frame(2000, 1024);
    fonts.layout_job(hi_job());
    fonts.begin_frame(2000, 512);
    assert_eq!(fonts.num_galleys_in_cache(), 0);
    assert_eq!(fonts.num_font_impls(), 0);
    assert_eq!(fonts.max_texture_side(), 512);
    assert_eq!(fonts.font_image_size()[0], 512);
}

#[test]
fn atlas_almost_full_triggers_rebuild() {
    let mut fonts = FontPaintManager::new(2000, 1024, catalog()).unwrap();
    fonts.begin_frame(2000, 1024);
    fonts.layout_job(hi_job());
    let atlas_before = fonts.texture_atlas().id();
    // Capacity is 1024 * 64 pixels; claim past eight tenths of it.
    fonts.claim_atlas_space(60_000);
    assert!(fonts.font_atlas_fill_ratio() > 800);
    // Same ratio, same size limit: only the fill ratio forces the rebuild.
    fonts.begin_frame(2000, 1024);
    assert_ne!(fonts.texture_atlas().id(), atlas_before);
    assert_eq!(fonts.num_galleys_in_cache(), 0);
    assert_eq!(fonts.num_font_impls(), 0);
    assert_eq!(fonts.font_atlas_fill_ratio(), 0);
}

#[test]
fn atlas_fill_below_threshold_does_not_rebuild() {
    let mut fonts = FontPaintManager::new(2000, 1024, catalog()).unwrap();
    fonts.begin_frame(2000, 1024);
    let atlas_before = fonts.texture_atlas().id();
    fonts.claim_atlas_space(10_000);
    assert!(fonts.font_atlas_fill_ratio() <= 800);
    fonts.begin_frame(2000, 1024);
    assert_eq!(fonts.texture_atlas().id(), atlas_before);
}

#[test]
fn resolution_is_deterministic_across_frames() {
    let mut fonts = FontPaintManager::new(1500, 2048, catalog()).unwrap();
    fonts.begin_frame(1500, 2048);
    let first = fonts.font(&FontId::proportional(12000));
    let constructed = fonts.num_font_impls();
    // Same size, family, ratio and tweak: every later resolution hits.
    fonts.begin_frame(1500, 2048);
    let second = fonts.font(&FontId::proportional(12000));
    assert_eq!(fonts.num_font_impls(), constructed);
    assert_eq!(first.fonts.len(), second.fonts.len());
    assert_eq!(first.fonts[0].pixel_scale, second.fonts[0].pixel_scale);
    assert_eq!(
        first.fonts[0].y_offset_points_milli,
        second.fonts[0].y_offset_points_milli
    );
}

#[test]
fn sizes_collapsing_to_one_pixel_scale_share_an_implementation() {
    let mut fonts = FontPaintManager::new(1000, 2048, catalog()).unwrap();
    fonts.begin_frame(1000, 2048);
    // 13.8 and 14.2 points both round to 14 whole pixels at ratio 1.0.
    fonts.font(&FontId::proportional(13_800));
    fonts.font(&FontId::proportional(14_200));
    assert_eq!(fonts.num_font_impls(), 1);
}

#[test]
fn atlas_delta_is_drained_once() {
    let mut fonts = FontPaintManager::new(1000, 2048, catalog()).unwrap();
    fonts.begin_frame(1000, 2048);
    assert!(fonts.font_image_delta().is_none());
    fonts.claim_atlas_space(100);
    let delta = fonts.font_image_delta().unwrap();
    assert_eq!(delta.from_px, 0);
    assert_eq!(delta.to_px, 100);
    assert!(fonts.font_image_delta().is_none());
}

#[test]
fn out_of_range_pixel_ratio_is_rejected() {
    assert!(FontPaintManager::new(0, 1024, catalog()).is_err());
    assert!(FontPaintManager::new(100_000, 1024, catalog()).is_err());
    assert!(FontPaintManager::new(99_999, 1024, catalog()).is_ok());
    assert!(FontPaintManager::new(1, 1024, catalog()).is_ok());
}

#[test]
fn unparseable_font_bytes_are_rejected() {
    let defs = FontDefinitions {
        font_data_map: vec![(
            "Broken".to_string(),
            FontData::from_owned(vec![1, 2, 3, 4]),
        )],
        type_fonts: vec![(FontType::Proportional, vec!["Broken".to_string()])],
    };
    match FontPaintManager::new(1000, 1024, defs) {
        Err(font_cache::errors::FontCacheError::InvalidFontBytes(name)) => {
            assert_eq!(name, "Broken");
        }
        other => panic!("expected invalid font bytes, got {:?}", other.is_ok()),
    }
}

#[test]
fn discovered_font_extends_chains_without_dropping_galleys() {
    let mut fonts = FontPaintManager::new(2000, 1024, catalog()).unwrap();
    fonts.begin_frame(2000, 1024);
    let fid = FontId::proportional(14000);
    let cached = fonts.layout_job(hi_job());
    // The empty font covers nothing, so every character is missing.
    let missing = fonts.missing_glyphs("Hi", &fid);
    assert_eq!(missing, vec!['H', 'i']);
    fonts
        .add_discovered_font(&fid, &"Extra".to_string(), minimal_ttf())
        .unwrap();
    // The already-resolved chain gained the fallback in place.
    let chain = fonts.font(&fid);
    assert_eq!(chain.fonts.len(), 2);
    assert_eq!(chain.fonts[1].name, "Extra");
    // Cached layout results for unrelated requests are untouched.
    assert_eq!(fonts.num_galleys_in_cache(), 1);
    let again = fonts.layout_job(hi_job());
    assert!(Arc::ptr_eq(&cached, &again));
    // The catalog now binds the new name in both built-in families.
    let defs = fonts.lock().font_manager.definitions().clone();
    for family in [FontType::Monospace, FontType::Proportional] {
        let chain_names = defs
            .type_fonts
            .iter()
            .find(|p| p.0.same(&family))
            .map(|p| p.1.clone())
            .unwrap();
        assert_eq!(chain_names.last().unwrap(), "Extra");
    }
}

#[test]
fn discovered_font_with_bad_bytes_is_an_error() {
    let mut fonts = FontPaintManager::new(2000, 1024, catalog()).unwrap();
    fonts.begin_frame(2000, 1024);
    let fid = FontId::proportional(14000);
    assert!(fonts
        .add_discovered_font(&fid, &"Bad".to_string(), vec![0, 1, 2])
        .is_err());
    let chain = fonts.font(&fid);
    assert_eq!(chain.fonts.len(), 1);
}

#[test]
fn layout_variants_record_their_requests() {
    let mut fonts = FontPaintManager::new(1000, 2048, catalog()).unwrap();
    fonts.begin_frame(1000, 2048);
    let wrapped = fonts.layout("abc".to_string(), FontId::proportional(10000), white(), 50_000);
    assert_eq!(wrapped.job.wrap_width_milli, 50_000);
    assert_eq!(wrapped.job.text, "abc");
    let unwrapped = fonts.layout_no_wrap("abc".to_string(), FontId::proportional(10000), white());
    assert_eq!(unwrapped.job.wrap_width_milli, font_cache::galley::NO_WRAP_WIDTH_MILLI);
    let delayed = fonts.layout_delayed_color("abc".to_string(), FontId::proportional(10000), 50_000);
    assert_eq!(delayed.job.color, Color32 { r: 64, g: 254, b: 0, a: 255 });
}

#[test]
fn unbound_or_unregistered_styles_are_not_resolvable() {
    let fonts = FontPaintManager::new(1000, 2048, catalog()).unwrap();
    assert!(fonts.can_resolve(&FontId::proportional(14000)));
    assert!(fonts.can_resolve(&FontId::monospace(14000)));
    assert!(!fonts.can_resolve(&FontId::new(14000, FontType::Name("nope".to_string()))));
    let dangling = FontDefinitions {
        font_data_map: vec![],
        type_fonts: vec![(FontType::Proportional, vec!["ghostly".to_string()])],
    };
    let fonts2 = FontPaintManager::new(1000, 2048, dangling).unwrap();
    assert!(!fonts2.can_resolve(&FontId::proportional(14000)));
}

#[test]
fn missing_glyphs_scans_the_whole_unicode_text() {
    let mut fonts = FontPaintManager::new(2000, 1024, catalog()).unwrap();
    fonts.begin_frame(2000, 1024);
    let fid = FontId::proportional(14000);
    // The empty font covers nothing, so every character of the text comes
    // back, non-ASCII ones included, in text order.
    let missing = fonts.missing_glyphs("a\u{00e9}\u{4e2d}\u{1f600}", &fid);
    assert_eq!(missing, vec!['a', '\u{00e9}', '\u{4e2d}', '\u{1f600}']);
}

#[test]
fn catalog_can_be_edited_between_invalidation_points() {
    let mut manager = font_cache::manager::FontsManager::new(1000, 2048, catalog()).unwrap();
    let defs = manager.definitions_mut();
    defs.font_data_map.push(("Second".to_string(), FontData::from_owned(minimal_ttf())));
    defs.append_type_font(&FontType::Proportional, &"Second".to_string());
    assert_eq!(manager.definitions().font_data_map.len(), 2);
    // The edited catalog takes effect in a rebuilt manager.
    let rebuilt = font_cache::manager::FontsManager::new(1000, 2048, manager.definitions().clone())
        .unwrap();
    assert!(rebuilt.can_resolve(&FontId::proportional(14000)));
}

#[test]
fn families_lists_catalog_order() {
    let fonts = FontPaintManager::new(1000, 2048, catalog()).unwrap();
    let families = fonts.families();
    assert_eq!(families.len(), 2);
    assert!(families[0].same(&FontType::Proportional));
    assert!(families[1].same(&FontType::Monospace));
}
