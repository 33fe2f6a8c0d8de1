//! The data model and the path probing: identity keys, tweak defaults,
//! fixed-point derivations, content hashing, and default font paths.

use font_cache::font_types::FontData;
use font_cache::font_types::FontId;
use font_cache::font_types::FontTweak;
use font_cache::font_types::FontType;
use font_cache::font_source::default_font_directories;
use font_cache::font_source::get_system_default_font_path;
use font_cache::font_source::set_file_name;
use font_cache::galley::hash_job;
use font_cache::galley::Color32;
use font_cache::galley::LayoutJob;
use font_cache::scale::effective_scale;
use font_cache::scale::pixel_scale;
use font_cache::scale::y_offset_points_milli;

#[test]
fn font_type_names() {
    assert_eq!(FontType::Proportional.name(), "Proportional");
    assert_eq!(FontType::Monospace.name(), "Monospace");
    assert_eq!(FontType::Name("arial".to_string()).name(), "arial");
}

#[test]
fn font_type_equality_is_by_text() {
    assert!(FontType::Name("a".to_string()).same(&FontType::Name("a".to_string())));
    assert!(!FontType::Name("a".to_string()).same(&FontType::Name("b".to_string())));
    assert!(!FontType::Proportional.same(&FontType::Monospace));
}

#[test]
fn font_id_constructors() {
    let d = FontId::default();
    assert_eq!(d.size_milli, 14000);
    assert!(d.font_type.same(&FontType::Proportional));
    assert!(FontId::monospace(9000).font_type.same(&FontType::Monospace));
    assert_eq!(FontId::proportional(9000).size_milli, 9000);
}

#[test]
fn tweak_defaults() {
    let t = FontTweak::default();
    assert_eq!(t.scale_milli, 1000);
    assert_eq!(t.y_offset_factor_milli, -200);
    assert_eq!(t.y_offset_milli, 0);
    let d = FontData::from_owned(vec![1, 2]).tweak(FontTweak {
        scale_milli: 800,
        y_offset_factor_milli: 70,
        y_offset_milli: 0,
    });
    assert_eq!(d.tweak.scale_milli, 800);
    assert_eq!(d.font, vec![1, 2]);
    assert_eq!(d.index, 0);
}

#[test]
fn pixel_scale_rounds_to_whole_pixels() {
    // round(2.0 * 14.0) = 28
    assert_eq!(pixel_scale(2000, 14000), 28);
    // round(1.0 * 13.8) = 14, round(1.0 * 14.2) = 14
    assert_eq!(pixel_scale(1000, 13_800), 14);
    assert_eq!(pixel_scale(1000, 14_200), 14);
    // round(1.5 * 13.0) = round(19.5) = 20 (half rounds up)
    assert_eq!(pixel_scale(1500, 13_000), 20);
    assert_eq!(pixel_scale(999, 0), 0);
}

#[test]
fn effective_scale_applies_the_tweak() {
    // round(28 * 0.8) = round(22.4) = 22
    assert_eq!(effective_scale(28, 800), 22);
    assert_eq!(effective_scale(28, 1000), 28);
    // Saturates instead of overflowing.
    assert_eq!(effective_scale(u32::MAX, u32::MAX), u32::MAX);
}

#[test]
fn y_offset_follows_the_tweak() {
    let t = FontTweak::default();
    // 28 px at ratio 2.0 is 14 points; -0.2 of that is -2.8 points.
    assert_eq!(y_offset_points_milli(28, 2000, &t), -2800);
    let shifted = FontTweak { scale_milli: 1000, y_offset_factor_milli: 70, y_offset_milli: 500 };
    // +0.07 of 14 points is 0.98 points, plus the fixed half point.
    assert_eq!(y_offset_points_milli(28, 2000, &shifted), 980 + 500);
}

#[test]
fn job_hash_is_deterministic_and_content_sensitive() {
    let job = |text: &str, size: u32| {
        LayoutJob::simple(
            text.to_string(),
            FontId::proportional(size),
            Color32 { r: 1, g: 2, b: 3, a: 4 },
            1000,
        )
    };
    assert_eq!(hash_job(&job("Hi", 14000)), hash_job(&job("Hi", 14000)));
    assert_ne!(hash_job(&job("Hi", 14000)), hash_job(&job("Ho", 14000)));
    assert_ne!(hash_job(&job("Hi", 14000)), hash_job(&job("Hi", 14001)));
}

#[test]
fn set_file_name_replaces_the_final_component() {
    assert_eq!(set_file_name("/usr/share/fonts", "serif"), "/usr/share/serif");
    assert_eq!(set_file_name("relative/dir", "x"), "relative/x");
    assert_eq!(set_file_name("bare", "x"), "x");
    assert_eq!(set_file_name("", "x"), "x");
}

#[test]
fn default_directories_start_with_the_system_ones() {
    let dirs = default_font_directories();
    assert!(dirs.len() >= 4);
    assert_eq!(dirs[0], "/usr/share/fonts");
    assert_eq!(dirs[1], "/usr/local/share/fonts");
    assert_eq!(dirs[2], "/var/run/host/usr/share/fonts");
    assert_eq!(dirs[3], "/var/run/host/usr/local/share/fonts");
}

#[test]
fn system_default_font_path_ends_with_the_family_name() {
    // What exists on disk is the host's business; any hit must carry the
    // probed file name.
    if let Some(p) = get_system_default_font_path(FontType::Monospace) {
        assert!(p.ends_with("monospace"));
    }
    if let Some(p) = get_system_default_font_path(FontType::Proportional) {
        assert!(p.ends_with("serif"));
    }
}
