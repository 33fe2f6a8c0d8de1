//! The per-pixel-scale font-implementation cache: maps an effective pixel
//! scale and a font name to one shared font implementation, constructing it
//! on first request and reusing it for the owning manager's lifetime. It
//! also owns the parsed font handles of every registered font record.

use std::sync::Arc;

use vstd::prelude::*;

use crate::assoc::assoc_find;
use crate::assoc::lemma_assoc_find_push;
use crate::assoc::lemma_assoc_find_skip_end;
use crate::assoc::lemma_assoc_find_skip_found;
use crate::assoc::lemma_assoc_find_skip_step;
use crate::errors::FontCacheError;
use crate::font_types::FontData;
use crate::font_types::FontTweak;
use crate::rasterize::font_parse_ok;
use crate::rasterize::glyph_index;
use crate::rasterize::parse_font;
use crate::scale::effective_scale;
use crate::scale::effective_scale_of;
use crate::scale::pixel_scale;
use crate::scale::pixel_scale_of;
use crate::scale::y_offset_milli_of;
use crate::scale::y_offset_points_milli;
use crate::scale::MAX_PIXELS_PER_POINT_MILLI;
use crate::shared::arc_clone;

verus! {

/// One rasterizer-backed font bound to one font file at one fixed pixel
/// scale and vertical offset. Glyph bitmaps are claimed lazily from the
/// shared atlas identified by `atlas_id`.
pub struct FontImpl {
    /// The registered name this implementation was built from.
    pub name: String,
    /// The effective pixel scale it rasterizes at.
    pub pixel_scale: u32,
    /// The tweak-derived vertical offset, in thousandths of a point.
    pub y_offset_points_milli: i64,
    /// The identity of the atlas its glyphs go into.
    pub atlas_id: u64,
    /// The parsed font handle.
    pub font: ab_glyph::FontArc,
}

/// The mathematical value of a [`FontImpl`]: everything but the opaque
/// parsed handle.
#[verifier::ext_equal]
pub struct FontImplView {
    pub name: Seq<char>,
    pub pixel_scale: u32,
    pub y_offset_points_milli: i64,
    pub atlas_id: u64,
}

impl View for FontImpl {
    type V = FontImplView;

    open spec fn view(&self) -> FontImplView {
        FontImplView {
            name: self.name@,
            pixel_scale: self.pixel_scale,
            y_offset_points_milli: self.y_offset_points_milli,
            atlas_id: self.atlas_id,
        }
    }
}

impl FontImpl {
    /// Whether this font has a glyph for `c`. Which characters a font covers
    /// is the rasterizer's business, so nothing further is stated.
    pub fn has_glyph(&self, c: char) -> bool {
        glyph_index(&self.font, c) != 0
    }
}

/// An ordered fallback chain of shared font implementations for one
/// (pixel scale, family) pair: glyph queries probe the chain in order and
/// the first font with the glyph wins.
pub struct FontImplManager {
    /// The chain, in priority order.
    pub fonts: Vec<Arc<FontImpl>>,
}

impl View for FontImplManager {
    type V = Seq<FontImplView>;

    open spec fn view(&self) -> Seq<FontImplView> {
        self.fonts@.map_values(|f: Arc<FontImpl>| f@)
    }
}

impl FontImplManager {
    pub fn new(fonts: Vec<Arc<FontImpl>>) -> (r: Self)
        ensures
            r.fonts@ == fonts@,
    {
        FontImplManager { fonts }
    }

    /// Appends a late-bound fallback font to the live chain.
    pub fn push_font_impl(&mut self, font: Arc<FontImpl>)
        ensures
            final(self)@ == old(self)@.push(font@),
    {
        self.fonts.push(font);
        proof {
            assert(self@ =~= old(self)@.push(font@));
        }
    }

    /// Whether some font in the chain has a glyph for `c`.
    pub fn has_glyph(&self, c: char) -> bool {
        let n = self.fonts.len();
        let mut i: usize = 0;
        while i < n
            invariant
                n == self.fonts.len(),
                i <= n,
            decreases n - i,
        {
            if self.fonts[i].has_glyph(c) {
                return true;
            }
            i += 1;
        }
        false
    }

    /// A chain sharing the same font implementations.
    pub fn duplicate(&self) -> (r: Self)
        ensures
            r@ == self@,
    {
        let mut fonts: Vec<Arc<FontImpl>> = Vec::new();
        let n = self.fonts.len();
        let mut i: usize = 0;
        while i < n
            invariant
                n == self.fonts.len(),
                i <= n,
                fonts@.len() == i,
                fonts@.map_values(|f: Arc<FontImpl>| f@) =~~= self@.take(i as int),
            decreases n - i,
        {
            fonts.push(arc_clone(&self.fonts[i]));
            proof {
                assert(fonts@.len() == i + 1);
                assert(fonts@[i as int] == self.fonts@[i as int]);
                assert(fonts@.map_values(|f: Arc<FontImpl>| f@)[i as int] == self@[i as int]);
                assert(forall|k: int| 0 <= k < i ==> fonts@.map_values(|f: Arc<FontImpl>| f@)[k]
                    == self@.take(i as int)[k]);
                assert(fonts@.map_values(|f: Arc<FontImpl>| f@) =~~= self@.take(i + 1));
            }
            i += 1;
        }
        let r = FontImplManager { fonts };
        proof {
            assert(r@ =~~= self@);
        }
        r
    }
}

/// A parsed, registered font: its name, its tweak, and the parsed handle.
type ParsedFont = (String, (FontTweak, ab_glyph::FontArc));

/// A cached implementation, keyed by effective pixel scale and font name.
type CachedImpl = ((u32, String), Arc<FontImpl>);

/// One resolution step on the implementation cache: look the refined key
/// up, reuse the cached implementation or construct and memoize a new one.
/// This is exactly what [`FontsImplCache::font_impl`] does.
pub open spec fn impl_step(
    cache: Seq<((u32, Seq<char>), FontImplView)>,
    tweaks: Seq<(Seq<char>, FontTweak)>,
    ppp_milli: int,
    atlas_id: u64,
    scale_px: u32,
    name: Seq<char>,
) -> (Seq<((u32, Seq<char>), FontImplView)>, FontImplView) {
    let tweak = assoc_find(tweaks, name)->Some_0.1;
    let eff = effective_scale_of(scale_px as int, tweak.scale_milli as int);
    let key = (eff as u32, name);
    match assoc_find(cache, key) {
        Some(e) => (cache, e.1),
        None => {
            let v = FontImplView {
                name,
                pixel_scale: eff as u32,
                y_offset_points_milli: y_offset_milli_of(eff, ppp_milli, tweak) as i64,
                atlas_id,
            };
            (cache.push((key, v)), v)
        },
    }
}

/// The per-pixel-scale cache of font implementations.
pub struct FontsImplCache {
    atlas_id: u64,
    pixels_per_point_milli: u32,
    ab_fonts: Vec<ParsedFont>,
    cache: Vec<CachedImpl>,
}

impl FontsImplCache {
    /// The identity of the atlas every cached implementation draws into.
    pub closed spec fn spec_atlas_id(&self) -> u64 {
        self.atlas_id
    }

    pub closed spec fn spec_pixels_per_point_milli(&self) -> u32 {
        self.pixels_per_point_milli
    }

    /// The registered fonts' names and tweaks, in registration order.
    pub closed spec fn tweaks_view(&self) -> Seq<(Seq<char>, FontTweak)> {
        self.ab_fonts@.map_values(|p: ParsedFont| (p.0@, (p.1).0))
    }

    /// The tweak of the font registered under `name`, if any.
    pub open spec fn spec_tweak(&self, name: Seq<char>) -> Option<FontTweak> {
        match assoc_find(self.tweaks_view(), name) {
            Some(e) => Some(e.1),
            None => None,
        }
    }

    /// The cached implementations, keyed by effective pixel scale and name.
    pub closed spec fn cache_view(&self) -> Seq<((u32, Seq<char>), FontImplView)> {
        self.cache@.map_values(|p: CachedImpl| (((p.0).0, (p.0).1@), p.1@))
    }

    pub open spec fn wf(&self) -> bool {
        &&& 0 < self.spec_pixels_per_point_milli()
        &&& self.spec_pixels_per_point_milli() < MAX_PIXELS_PER_POINT_MILLI
        &&& forall|i: int|
            0 <= i < self.cache_view().len() ==> (#[trigger] self.cache_view()[i]).0 == (
            self.cache_view()[i].1.pixel_scale,
            self.cache_view()[i].1.name,
            ) && self.cache_view()[i].1.atlas_id == self.spec_atlas_id()
    }

    /// Parses every registered font record. Fails with the first record
    /// whose bytes the rasterizer rejects: an unparseable registered font is
    /// a configuration error.
    pub fn new(atlas_id: u64, pixels_per_point_milli: u32, font_data: &Vec<(String, FontData)>)
        -> (r: Result<Self, FontCacheError>)
        requires
            0 < pixels_per_point_milli < MAX_PIXELS_PER_POINT_MILLI,
        ensures
            match r {
                Ok(c) => {
                    &&& c.wf()
                    &&& c.spec_atlas_id() == atlas_id
                    &&& c.spec_pixels_per_point_milli() == pixels_per_point_milli
                    &&& c.tweaks_view() == font_data@.map_values(
                        |p: (String, FontData)| (p.0@, p.1.tweak),
                    )
                    &&& c.cache_view() == Seq::<((u32, Seq<char>), FontImplView)>::empty()
                    &&& forall|i: int|
                        0 <= i < font_data@.len() ==> font_parse_ok(
                            (#[trigger] font_data@[i]).1@.font,
                            font_data@[i].1@.index,
                        )
                },
                Err(e) => {
                    &&& exists|i: int|
                        0 <= i < font_data@.len() && !font_parse_ok(
                            (#[trigger] font_data@[i]).1@.font,
                            font_data@[i].1@.index,
                        )
                    &&& e matches FontCacheError::InvalidFontBytes(_)
                },
            },
    {
        let mut ab_fonts: Vec<ParsedFont> = Vec::new();
        let n = font_data.len();
        let mut i: usize = 0;
        while i < n
            invariant
                n == font_data@.len(),
                i <= n,
                ab_fonts@.len() == i,
                ab_fonts@.map_values(|p: ParsedFont| (p.0@, (p.1).0)) =~~= font_data@.map_values(
                    |p: (String, FontData)| (p.0@, p.1.tweak),
                ).take(i as int),
                forall|j: int|
                    0 <= j < i ==> font_parse_ok(
                        (#[trigger] font_data@[j]).1@.font,
                        font_data@[j].1@.index,
                    ),
            decreases n - i,
        {
            let entry = &font_data[i];
            match parse_font(&entry.1.font, entry.1.index) {
                Some(parsed) => {
                    ab_fonts.push((entry.0.clone(), (entry.1.tweak, parsed)));
                    proof {
                        assert(ab_fonts@.map_values(|p: ParsedFont| (p.0@, (p.1).0))
                            =~~= font_data@.map_values(
                            |p: (String, FontData)| (p.0@, p.1.tweak),
                        ).take(i + 1));
                    }
                },
                None => {
                    return Err(FontCacheError::InvalidFontBytes(entry.0.clone()));
                },
            }
            i += 1;
        }
        let r = FontsImplCache { atlas_id, pixels_per_point_milli, ab_fonts, cache: Vec::new() };
        proof {
            assert(r.tweaks_view() =~~= font_data@.map_values(
                |p: (String, FontData)| (p.0@, p.1.tweak),
            ));
            assert(r.cache_view() =~= Seq::<((u32, Seq<char>), FontImplView)>::empty());
        }
        Ok(r)
    }

    /// How many distinct font implementations have been constructed: the
    /// cache never evicts, so this is exactly the number of constructions
    /// since this cache was built.
    pub fn num_font_impls(&self) -> (r: usize)
        ensures
            r == self.cache_view().len(),
    {
        self.cache.len()
    }

    /// Rounds a point size to the whole-pixel scale this cache keys by.
    pub fn scale_as_pixels(&self, scale_in_points_milli: u32) -> (r: u32)
        requires
            self.wf(),
        ensures
            r == pixel_scale_of(
                self.spec_pixels_per_point_milli() as int,
                scale_in_points_milli as int,
            ),
    {
        pixel_scale(self.pixels_per_point_milli, scale_in_points_milli)
    }

    /// Registers a parsed font for a late-discovered record, keeping the
    /// first registration if the name is already present.
    pub fn register_font_source(&mut self, name: &String, tweak: FontTweak, bytes: &Vec<u8>, index: u32)
        -> (r: Result<(), FontCacheError>)
        requires
            old(self).wf(),
        ensures
            final(self).wf(),
            final(self).spec_atlas_id() == old(self).spec_atlas_id(),
            final(self).spec_pixels_per_point_milli() == old(self).spec_pixels_per_point_milli(),
            final(self).cache_view() == old(self).cache_view(),
            match r {
                Ok(()) => {
                    &&& font_parse_ok(bytes@, index)
                    &&& old(self).spec_tweak(name@) is Some ==> final(self).tweaks_view() == old(
                        self,
                    ).tweaks_view()
                    &&& old(self).spec_tweak(name@) is None ==> final(self).tweaks_view() == old(
                        self,
                    ).tweaks_view().push((name@, tweak))
                    &&& final(self).spec_tweak(name@) is Some
                },
                Err(e) => {
                    &&& !font_parse_ok(bytes@, index)
                    &&& e matches FontCacheError::InvalidFontBytes(_)
                    &&& final(self).tweaks_view() == old(self).tweaks_view()
                },
            },
    {
        match parse_font(bytes, index) {
            Some(parsed) => {
                let ghost tweaks = old(self).tweaks_view();
                proof {
                    assert(tweaks.skip(0) =~= tweaks);
                }
                let n = self.ab_fonts.len();
                let mut i: usize = 0;
                while i < n
                    invariant
                        n == self.ab_fonts.len(),
                        i <= n,
                        *self == *old(self),
                        old(self).wf(),
                        font_parse_ok(bytes@, index),
                        tweaks == self.tweaks_view(),
                        assoc_find(tweaks.skip(i as int), name@) == assoc_find(tweaks, name@),
                    decreases n - i,
                {
                    proof {
                        assert(self.tweaks_view()[i as int] == (
                            self.ab_fonts@[i as int].0@,
                            (self.ab_fonts@[i as int].1).0,
                        ));
                    }
                    if self.ab_fonts[i].0 == *name {
                        proof {
                            lemma_assoc_find_skip_found(tweaks, i as int, name@);
                        }
                        return Ok(());
                    }
                    proof {
                        lemma_assoc_find_skip_step(tweaks, i as int, name@);
                    }
                    i += 1;
                }
                proof {
                    lemma_assoc_find_skip_end(tweaks, name@);
                }
                self.ab_fonts.push((name.clone(), (tweak, parsed)));
                proof {
                    assert(self.tweaks_view() =~~= tweaks.push((name@, tweak)));
                    lemma_assoc_find_push(tweaks, (name@, tweak), name@);
                    assert(self.cache_view() =~~= old(self).cache_view());
                }
                Ok(())
            },
            None => Err(FontCacheError::InvalidFontBytes(name.clone())),
        }
    }

    /// Rebinds this cache to a fresh atlas under a new display scale,
    /// dropping every cached implementation but keeping the parsed font
    /// handles: parsing is deterministic, so re-parsing the same records
    /// would give the same handles.
    pub fn recreate(&mut self, atlas_id: u64, pixels_per_point_milli: u32)
        requires
            old(self).wf(),
            0 < pixels_per_point_milli < MAX_PIXELS_PER_POINT_MILLI,
        ensures
            final(self).wf(),
            final(self).spec_atlas_id() == atlas_id,
            final(self).spec_pixels_per_point_milli() == pixels_per_point_milli,
            final(self).tweaks_view() == old(self).tweaks_view(),
            final(self).cache_view() == Seq::<((u32, Seq<char>), FontImplView)>::empty(),
    {
        self.atlas_id = atlas_id;
        self.pixels_per_point_milli = pixels_per_point_milli;
        self.cache = Vec::new();
        proof {
            assert(self.cache_view() =~= Seq::<((u32, Seq<char>), FontImplView)>::empty());
            assert(self.tweaks_view() =~~= old(self).tweaks_view());
        }
    }

    /// The index of the parsed font registered under `font_name`.
    fn parsed_index(&self, font_name: &String) -> (idx: usize)
        requires
            self.spec_tweak(font_name@) is Some,
        ensures
            idx < self.ab_fonts@.len(),
            assoc_find(self.tweaks_view(), font_name@) == Some(self.tweaks_view()[idx as int]),
            self.tweaks_view()[idx as int].0 == font_name@,
    {
        let ghost tweaks = self.tweaks_view();
        proof {
            assert(tweaks.skip(0) =~= tweaks);
        }
        let n = self.ab_fonts.len();
        let mut i: usize = 0;
        while i < n
            invariant
                n == self.ab_fonts.len(),
                i <= n,
                tweaks == self.tweaks_view(),
                assoc_find(tweaks.skip(i as int), font_name@) == assoc_find(tweaks, font_name@),
            decreases n - i,
        {
            if self.ab_fonts[i].0 == *font_name {
                proof {
                    lemma_assoc_find_skip_found(tweaks, i as int, font_name@);
                }
                return i;
            }
            proof {
                lemma_assoc_find_skip_step(tweaks, i as int, font_name@);
            }
            i += 1;
        }
        proof {
            lemma_assoc_find_skip_end(tweaks, font_name@);
            assert(false);
        }
        0
    }

    /// The shared implementation of the named font at the tweak-refined
    /// pixel scale, constructed on the first request and reused afterwards.
    pub fn font_impl(&mut self, scale_in_pixels: u32, font_name: &String) -> (r: Arc<FontImpl>)
        requires
            old(self).wf(),
            old(self).spec_tweak(font_name@) is Some,
        ensures
            final(self).wf(),
            final(self).spec_atlas_id() == old(self).spec_atlas_id(),
            final(self).spec_pixels_per_point_milli() == old(self).spec_pixels_per_point_milli(),
            final(self).tweaks_view() == old(self).tweaks_view(),
            ({
                let tweak = old(self).spec_tweak(font_name@)->Some_0;
                let eff = effective_scale_of(scale_in_pixels as int, tweak.scale_milli as int);
                let key = (eff as u32, font_name@);
                match assoc_find(old(self).cache_view(), key) {
                    Some(e) => {
                        &&& r@ == e.1
                        &&& final(self).cache_view() == old(self).cache_view()
                    },
                    None => {
                        &&& r@ == (FontImplView {
                            name: font_name@,
                            pixel_scale: eff as u32,
                            y_offset_points_milli: y_offset_milli_of(
                                eff,
                                old(self).spec_pixels_per_point_milli() as int,
                                tweak,
                            ) as i64,
                            atlas_id: old(self).spec_atlas_id(),
                        })
                        &&& final(self).cache_view() == old(self).cache_view().push((key, r@))
                    },
                }
            }),
    {
        let found = self.parsed_index(font_name);
        let tweak = (self.ab_fonts[found].1).0;
        proof {
            assert(self.tweaks_view()[found as int] == (
                self.ab_fonts@[found as int].0@,
                (self.ab_fonts@[found as int].1).0,
            ));
        }
        let eff = effective_scale(scale_in_pixels, tweak.scale_milli);
        let ghost cache0 = self.cache_view();
        let ghost key = (eff, font_name@);
        proof {
            assert(cache0.skip(0) =~= cache0);
        }
        let m = self.cache.len();
        let mut j: usize = 0;
        while j < m
            invariant
                m == self.cache.len(),
                j <= m,
                *self == *old(self),
                old(self).wf(),
                old(self).spec_tweak(font_name@) is Some,
                tweak == old(self).spec_tweak(font_name@)->Some_0,
                eff == effective_scale_of(scale_in_pixels as int, tweak.scale_milli as int),
                key == (eff, font_name@),
                cache0 == self.cache_view(),
                assoc_find(cache0.skip(j as int), key) == assoc_find(cache0, key),
            decreases m - j,
        {
            proof {
                assert(self.cache_view()[j as int] == (
                    ((self.cache@[j as int].0).0, (self.cache@[j as int].0).1@),
                    self.cache@[j as int].1@,
                ));
            }
            if (self.cache[j].0).0 == eff && (self.cache[j].0).1 == *font_name {
                proof {
                    lemma_assoc_find_skip_found(cache0, j as int, key);
                }
                return arc_clone(&self.cache[j].1);
            }
            proof {
                lemma_assoc_find_skip_step(cache0, j as int, key);
            }
            j += 1;
        }
        proof {
            lemma_assoc_find_skip_end(cache0, key);
        }
        let y_off = y_offset_points_milli(eff, self.pixels_per_point_milli, &tweak);
        let font_arc = ((self.ab_fonts[found].1).1).clone();
        let built = Arc::new(
            FontImpl {
                name: font_name.clone(),
                pixel_scale: eff,
                y_offset_points_milli: y_off,
                atlas_id: self.atlas_id,
                font: font_arc,
            },
        );
        self.cache.push(((eff, font_name.clone()), arc_clone(&built)));
        proof {
            assert(self.cache_view() =~~= cache0.push((key, built@)));
            lemma_assoc_find_push(cache0, (key, built@), key);
        }
        built
    }
}

} // verus!
