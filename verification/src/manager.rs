//! The cache orchestrator: owns the atlas, the font-implementation cache,
//! the catalog, and the per-(pixel scale, family) fallback-chain cache, and
//! decides once per frame whether every cached thing must be rebuilt.

use std::sync::Arc;

use vstd::prelude::*;
use vstd::string::StringSliceAdditionalSpecFns;

use crate::assoc::assoc_find;
use crate::assoc::lemma_assoc_find_same_keys;
use crate::assoc::lemma_assoc_find_push;
use crate::assoc::lemma_assoc_find_skip_end;
use crate::assoc::lemma_assoc_find_skip_found;
use crate::assoc::lemma_assoc_find_skip_step;
use crate::assoc::lemma_assoc_find_update;
use crate::atlas::TextureAtlas;
use crate::atlas::ImageDelta;
use crate::errors::FontCacheError;
use crate::font_types::default_tweak;
use crate::font_types::FontDataView;
use crate::font_types::FontDefinitions;
use crate::font_types::FontId;
use crate::font_types::FontIdView;
use crate::font_types::FontType;
use crate::font_types::FontTypeView;
use crate::font_types::FontTweak;
use crate::galley::job_hash_of;
use crate::galley::next_generation;
use crate::galley::CachedGalleyView;
use crate::galley::Galley;
use crate::galley::GalleyCache;
use crate::galley::Color32;
use crate::galley::LayoutJob;
use crate::galley::LayoutJobView;
use crate::impl_cache::impl_step;
use crate::impl_cache::FontImplManager;
use crate::impl_cache::FontImplView;
use crate::impl_cache::FontsImplCache;
use crate::scale::effective_scale_of;
use crate::scale::pixel_scale_of;

verus! {

/// The widest atlas the orchestrator will ask for, whatever the reported
/// texture size limit.
pub const ATLAS_WIDTH_CAP: usize = 8192;

/// The height every fresh atlas starts with; a real allocator grows it on
/// demand.
pub const ATLAS_INITIAL_HEIGHT: usize = 64;

/// The fill ratio (in thousandths) past which the atlas counts as almost
/// full.
pub const ATLAS_FULL_PERMILLE: u32 = 800;

/// A cached fallback chain, keyed by whole-pixel scale and family.
type CachedChain = ((u32, FontType), FontImplManager);

/// The view of the fallback-chain cache.
pub type ChainCacheView = Seq<((u32, FontTypeView), Seq<FontImplView>)>;

/// A 64-bit increment that wraps to zero: fresh atlas identities.
pub open spec fn next_atlas_id(id: u64) -> u64 {
    if id == u64::MAX {
        0
    } else {
        (id + 1) as u64
    }
}

/// A 64-bit increment that wraps to zero: the layout-computation counter.
pub open spec fn next_computed(c: u64) -> u64 {
    if c == u64::MAX {
        0
    } else {
        (c + 1) as u64
    }
}

/// Folds one fallback chain through the implementation cache, name by name,
/// reusing cached implementations and constructing the missing ones.
/// Returns the cache afterwards and the resolved chain.
pub open spec fn chain_fold(
    cache: Seq<((u32, Seq<char>), FontImplView)>,
    tweaks: Seq<(Seq<char>, FontTweak)>,
    ppp_milli: int,
    atlas_id: u64,
    scale_px: u32,
    names: Seq<Seq<char>>,
) -> (Seq<((u32, Seq<char>), FontImplView)>, Seq<FontImplView>)
    decreases names.len(),
{
    if names.len() == 0 {
        (cache, Seq::<FontImplView>::empty())
    } else {
        let step = impl_step(cache, tweaks, ppp_milli, atlas_id, scale_px, names[0]);
        let rest = chain_fold(step.0, tweaks, ppp_milli, atlas_id, scale_px, names.drop_first());
        (rest.0, seq![step.1] + rest.1)
    }
}

/// The collection of fonts one orchestrator instance draws from.
pub struct FontsManager {
    pixels_per_point_milli: u32,
    max_texture_side: usize,
    definitions: FontDefinitions,
    atlas: TextureAtlas,
    fonts_impl_cache: FontsImplCache,
    font_impl_manager_map: Vec<CachedChain>,
}

impl FontsManager {
    pub closed spec fn spec_pixels_per_point_milli(&self) -> u32 {
        self.pixels_per_point_milli
    }

    pub closed spec fn spec_max_texture_side(&self) -> usize {
        self.max_texture_side
    }

    /// The whole atlas value, identity included.
    pub closed spec fn spec_atlas(&self) -> TextureAtlas {
        self.atlas
    }

    /// The identity of the atlas every cached thing references.
    pub open spec fn spec_atlas_id(&self) -> u64 {
        self.spec_atlas().spec_id()
    }

    pub closed spec fn spec_definitions(&self) -> FontDefinitions {
        self.definitions
    }

    /// The registered font records, by name.
    pub open spec fn fonts_view(&self) -> Seq<(Seq<char>, FontDataView)> {
        self.spec_definitions().fonts_view()
    }

    /// The family bindings of the catalog.
    pub open spec fn spec_type_fonts(&self, family: FontTypeView) -> Option<Seq<Seq<char>>> {
        self.spec_definitions().spec_type_fonts(family)
    }

    /// The registered tweaks the implementation cache holds.
    pub closed spec fn tweaks_view(&self) -> Seq<(Seq<char>, FontTweak)> {
        self.fonts_impl_cache.tweaks_view()
    }

    /// The implementation cache contents.
    pub closed spec fn impl_cache_view(&self) -> Seq<((u32, Seq<char>), FontImplView)> {
        self.fonts_impl_cache.cache_view()
    }

    /// The fallback-chain cache contents.
    pub closed spec fn chains_cache_view(&self) -> ChainCacheView {
        self.font_impl_manager_map@.map_values(
            |p: CachedChain| (((p.0).0, (p.0).1@), p.1@),
        )
    }

    pub closed spec fn wf(&self) -> bool {
        &&& self.fonts_impl_cache.wf()
        &&& self.fonts_impl_cache.spec_pixels_per_point_milli()
            == self.spec_pixels_per_point_milli()
        &&& self.fonts_impl_cache.spec_atlas_id() == self.spec_atlas_id()
        &&& self.spec_atlas().wf()
        &&& self.tweaks_view() == self.fonts_view().map_values(
            |e: (Seq<char>, FontDataView)| (e.0, e.1.tweak),
        )
        &&& forall|i: int, j: int|
            0 <= i < self.chains_cache_view().len() && 0 <= j
                < self.chains_cache_view()[i].1.len() ==> (#[trigger] self.chains_cache_view()[i].1[j]).atlas_id
                == self.spec_atlas_id()
    }

    /// Whether the catalog can resolve this style: its family is bound and
    /// every name in the bound chain is a registered font.
    pub open spec fn resolvable(&self, fid: FontIdView) -> bool {
        match self.spec_type_fonts(fid.family) {
            Some(names) => forall|j: int|
                0 <= j < names.len() ==> assoc_find(self.fonts_view(), #[trigger] names[j])
                    is Some,
            None => false,
        }
    }

    /// What one style resolution does to the manager: on a chain-cache hit
    /// nothing changes and the cached chain is returned; on a miss the
    /// chain is folded through the implementation cache and memoized. The
    /// catalog, the display parameters and the atlas never change.
    pub open spec fn resolve_post(
        &self,
        post: &FontsManager,
        fid: FontIdView,
        chain: Seq<FontImplView>,
    ) -> bool {
        let scale = pixel_scale_of(
            self.spec_pixels_per_point_milli() as int,
            fid.size_milli as int,
        ) as u32;
        let ckey = (scale, fid.family);
        &&& post.spec_pixels_per_point_milli() == self.spec_pixels_per_point_milli()
        &&& post.spec_max_texture_side() == self.spec_max_texture_side()
        &&& post.spec_definitions() == self.spec_definitions()
        &&& post.spec_atlas() == self.spec_atlas()
        &&& post.tweaks_view() == self.tweaks_view()
        &&& match assoc_find(self.chains_cache_view(), ckey) {
            Some(e) => {
                &&& chain == e.1
                &&& post.impl_cache_view() == self.impl_cache_view()
                &&& post.chains_cache_view() == self.chains_cache_view()
            },
            None => {
                let names = self.spec_type_fonts(fid.family)->Some_0;
                let folded = chain_fold(
                    self.impl_cache_view(),
                    self.tweaks_view(),
                    self.spec_pixels_per_point_milli() as int,
                    self.spec_atlas_id(),
                    scale,
                    names,
                );
                &&& chain == folded.1
                &&& post.impl_cache_view() == folded.0
                &&& post.chains_cache_view() == self.chains_cache_view().push((ckey, chain))
            },
        }
    }

    /// Builds a manager for one display configuration: validates the pixel
    /// ratio, sizes a fresh atlas, and parses every registered font.
    pub fn new(
        pixels_per_point_milli: u32,
        max_texture_side: usize,
        definitions: FontDefinitions,
    ) -> (r: Result<FontsManager, FontCacheError>)
        ensures
            match r {
                Ok(m) => {
                    &&& 0 < pixels_per_point_milli < 100000
                    &&& m.wf()
                    &&& m.spec_pixels_per_point_milli() == pixels_per_point_milli
                    &&& m.spec_max_texture_side() == max_texture_side
                    &&& m.spec_definitions() == definitions
                    &&& m.spec_atlas_id() == 0
                    &&& m.spec_atlas().spec_width() == (if max_texture_side > ATLAS_WIDTH_CAP {
                        ATLAS_WIDTH_CAP as int
                    } else {
                        max_texture_side as int
                    })
                    &&& m.spec_atlas().spec_height() == ATLAS_INITIAL_HEIGHT
                    &&& m.spec_atlas().spec_allocated() == 0
                    &&& m.impl_cache_view() == Seq::<((u32, Seq<char>), FontImplView)>::empty()
                    &&& m.chains_cache_view() == ChainCacheView::empty()
                },
                Err(FontCacheError::PixelRatioOutOfRange) => !(0 < pixels_per_point_milli
                    < 100000),
                Err(FontCacheError::InvalidFontBytes(_)) => {
                    &&& 0 < pixels_per_point_milli < 100000
                    &&& exists|i: int|
                        0 <= i < definitions.fonts_view().len() && !crate::rasterize::font_parse_ok(
                            (#[trigger] definitions.fonts_view()[i]).1.font,
                            definitions.fonts_view()[i].1.index,
                        )
                },
            },
    {
        if !(0 < pixels_per_point_milli && pixels_per_point_milli < 100000) {
            return Err(FontCacheError::PixelRatioOutOfRange);
        }
        let texture_width = if max_texture_side > ATLAS_WIDTH_CAP {
            ATLAS_WIDTH_CAP
        } else {
            max_texture_side
        };
        let atlas = TextureAtlas::new(texture_width, ATLAS_INITIAL_HEIGHT, 0);
        let fonts_impl_cache = match FontsImplCache::new(
            0,
            pixels_per_point_milli,
            &definitions.font_data_map,
        ) {
            Ok(c) => c,
            Err(e) => {
                proof {
                    let fd = definitions.font_data_map@;
                    let i = choose|i: int|
                        0 <= i < fd.len() && !crate::rasterize::font_parse_ok(
                            (#[trigger] fd[i]).1@.font,
                            fd[i].1@.index,
                        );
                    assert(definitions.fonts_view()[i] == (fd[i].0@, fd[i].1@));
                }
                return Err(e);
            },
        };
        let m = FontsManager {
            pixels_per_point_milli,
            max_texture_side,
            definitions,
            atlas,
            fonts_impl_cache,
            font_impl_manager_map: Vec::new(),
        };
        proof {
            assert(m.chains_cache_view() =~= ChainCacheView::empty());
            assert(m.tweaks_view() =~~= m.fonts_view().map_values(
                |e: (Seq<char>, FontDataView)| (e.0, e.1.tweak),
            ));
        }
        Ok(m)
    }

    pub fn pixels_per_point(&self) -> (r: u32)
        ensures
            r == self.spec_pixels_per_point_milli(),
    {
        self.pixels_per_point_milli
    }

    pub fn max_texture_side(&self) -> (r: usize)
        ensures
            r == self.spec_max_texture_side(),
    {
        self.max_texture_side
    }

    /// The catalog this manager was built from.
    pub fn definitions(&self) -> (r: &FontDefinitions)
        ensures
            *r == self.spec_definitions(),
    {
        &self.definitions
    }

    /// Mutable access to the catalog, for the owning caller to edit between
    /// invalidation points. A mutation that changes registered records or
    /// unbinds families leaves the derived caches stale until the manager
    /// is rebuilt; everything but the catalog is untouched by this call.
    pub fn definitions_mut(&mut self) -> (r: &mut FontDefinitions)
        ensures
            *r == old(self).spec_definitions(),
            final(self).spec_definitions() == *final(r),
            final(self).spec_pixels_per_point_milli() == old(self).spec_pixels_per_point_milli(),
            final(self).spec_max_texture_side() == old(self).spec_max_texture_side(),
            final(self).spec_atlas() == old(self).spec_atlas(),
            final(self).tweaks_view() == old(self).tweaks_view(),
            final(self).impl_cache_view() == old(self).impl_cache_view(),
            final(self).chains_cache_view() == old(self).chains_cache_view(),
    {
        &mut self.definitions
    }

    /// The shared atlas.
    pub fn texture_atlas(&self) -> (r: &TextureAtlas)
        ensures
            *r == self.spec_atlas(),
    {
        &self.atlas
    }

    /// How many font implementations have been constructed so far.
    pub fn num_font_impls(&self) -> (r: usize)
        ensures
            r == self.impl_cache_view().len(),
    {
        self.fonts_impl_cache.num_font_impls()
    }

    /// Claims atlas space on behalf of glyph rasterization.
    pub fn claim_atlas_space(&mut self, px: u64)
        requires
            old(self).wf(),
        ensures
            final(self).wf(),
            final(self).spec_pixels_per_point_milli() == old(self).spec_pixels_per_point_milli(),
            final(self).spec_max_texture_side() == old(self).spec_max_texture_side(),
            final(self).spec_definitions() == old(self).spec_definitions(),
            final(self).tweaks_view() == old(self).tweaks_view(),
            final(self).impl_cache_view() == old(self).impl_cache_view(),
            final(self).chains_cache_view() == old(self).chains_cache_view(),
            final(self).spec_atlas_id() == old(self).spec_atlas_id(),
            final(self).spec_atlas().spec_allocated() == (if old(self).spec_atlas().spec_allocated()
                + px > old(self).spec_atlas().spec_capacity() {
                old(self).spec_atlas().spec_capacity()
            } else {
                old(self).spec_atlas().spec_allocated() + px
            }),
    {
        self.atlas.allocate(px);
        proof {
            assert(self.chains_cache_view() == old(self).chains_cache_view());
            assert(self.tweaks_view() == old(self).tweaks_view());
            assert(self.fonts_view() == old(self).fonts_view());
        }
    }

    /// Drains the atlas's incremental update.
    pub fn take_atlas_delta(&mut self) -> (r: Option<ImageDelta>)
        requires
            old(self).wf(),
        ensures
            final(self).wf(),
            final(self).spec_pixels_per_point_milli() == old(self).spec_pixels_per_point_milli(),
            final(self).spec_max_texture_side() == old(self).spec_max_texture_side(),
            final(self).spec_definitions() == old(self).spec_definitions(),
            final(self).tweaks_view() == old(self).tweaks_view(),
            final(self).impl_cache_view() == old(self).impl_cache_view(),
            final(self).chains_cache_view() == old(self).chains_cache_view(),
            final(self).spec_atlas_id() == old(self).spec_atlas_id(),
            final(self).spec_atlas().spec_allocated() == old(self).spec_atlas().spec_allocated(),
            final(self).spec_atlas().spec_taken() == old(self).spec_atlas().spec_allocated(),
            final(self).spec_atlas().spec_width() == old(self).spec_atlas().spec_width(),
            final(self).spec_atlas().spec_height() == old(self).spec_atlas().spec_height(),
            r == (if old(self).spec_atlas().spec_taken() < old(self).spec_atlas().spec_allocated() {
                Some(
                    ImageDelta {
                        from_px: old(self).spec_atlas().spec_taken(),
                        to_px: old(self).spec_atlas().spec_allocated(),
                    },
                )
            } else {
                None::<ImageDelta>
            }),
    {
        let r = self.atlas.take_delta();
        proof {
            assert(self.chains_cache_view() == old(self).chains_cache_view());
            assert(self.tweaks_view() == old(self).tweaks_view());
            assert(self.fonts_view() == old(self).fonts_view());
        }
        r
    }

    /// Rebuilds everything derived from the display configuration: a fresh
    /// atlas under a new identity, an emptied implementation cache (the
    /// parsed font handles are kept: parsing is deterministic), and an
    /// emptied chain cache. The catalog is retained.
    fn recreate(&mut self, pixels_per_point_milli: u32, max_texture_side: usize)
        requires
            old(self).wf(),
            0 < pixels_per_point_milli < 100000,
        ensures
            final(self).wf(),
            final(self).spec_pixels_per_point_milli() == pixels_per_point_milli,
            final(self).spec_max_texture_side() == max_texture_side,
            final(self).spec_definitions() == old(self).spec_definitions(),
            final(self).tweaks_view() == old(self).tweaks_view(),
            final(self).spec_atlas_id() == next_atlas_id(old(self).spec_atlas_id()),
            final(self).spec_atlas().spec_width() == (if max_texture_side > ATLAS_WIDTH_CAP {
                ATLAS_WIDTH_CAP as int
            } else {
                max_texture_side as int
            }),
            final(self).spec_atlas().spec_height() == ATLAS_INITIAL_HEIGHT,
            final(self).spec_atlas().spec_allocated() == 0,
            final(self).impl_cache_view() == Seq::<((u32, Seq<char>), FontImplView)>::empty(),
            final(self).chains_cache_view() == ChainCacheView::empty(),
    {
        let texture_width = if max_texture_side > ATLAS_WIDTH_CAP {
            ATLAS_WIDTH_CAP
        } else {
            max_texture_side
        };
        let old_id = self.atlas.id();
        let new_id = if old_id == u64::MAX {
            0
        } else {
            old_id + 1
        };
        self.atlas = TextureAtlas::new(texture_width, ATLAS_INITIAL_HEIGHT, new_id);
        self.fonts_impl_cache.recreate(new_id, pixels_per_point_milli);
        self.font_impl_manager_map = Vec::new();
        self.pixels_per_point_milli = pixels_per_point_milli;
        self.max_texture_side = max_texture_side;
        proof {
            assert(self.chains_cache_view() =~= ChainCacheView::empty());
        }
    }

    /// Whether the catalog can resolve this style. An unresolvable style is
    /// a configuration error; callers that cannot rule it out test here and
    /// fail their own way.
    pub fn can_resolve(&self, font_id: &FontId) -> (r: bool)
        ensures
            r == self.resolvable(font_id@),
    {
        let names = match self.definitions.get_type_fonts(&font_id.font_type) {
            Some(v) => v,
            None => {
                return false;
            },
        };
        let ghost names_v = self.spec_type_fonts(font_id@.family)->Some_0;
        let n = names.len();
        let mut i: usize = 0;
        while i < n
            invariant
                n == names.len(),
                i <= n,
                names@.map_values(|s: String| s@) == names_v,
                names_v == self.spec_type_fonts(font_id@.family)->Some_0,
                self.spec_type_fonts(font_id@.family) is Some,
                forall|j: int|
                    0 <= j < i ==> assoc_find(self.fonts_view(), #[trigger] names_v[j]) is Some,
            decreases n - i,
        {
            proof {
                assert(names@.map_values(|s: String| s@)[i as int] == names@[i as int]@);
            }
            if self.definitions.get_font_data(&names[i]).is_none() {
                return false;
            }
            i += 1;
        }
        true
    }

    /// The fallback chain for a style: memoized per (pixel scale, family),
    /// built on first request by resolving each bound font name through the
    /// implementation cache in priority order.
    pub fn font(&mut self, font_id: &FontId) -> (chain: FontImplManager)
        requires
            old(self).wf(),
            old(self).resolvable(font_id@),
        ensures
            final(self).wf(),
            old(self).resolve_post(&*final(self), font_id@, chain@),
    {
        let scale = self.fonts_impl_cache.scale_as_pixels(font_id.size_milli);
        let ghost ckey = (scale, font_id@.family);
        let ghost chains0 = self.chains_cache_view();
        proof {
            assert(chains0.skip(0) =~= chains0);
        }
        let n = self.font_impl_manager_map.len();
        let mut i: usize = 0;
        while i < n
            invariant
                n == self.font_impl_manager_map.len(),
                i <= n,
                *self == *old(self),
                old(self).wf(),
                chains0 == self.chains_cache_view(),
                scale == pixel_scale_of(
                    old(self).spec_pixels_per_point_milli() as int,
                    font_id@.size_milli as int,
                ),
                ckey == (scale, font_id@.family),
                assoc_find(chains0.skip(i as int), ckey) == assoc_find(chains0, ckey),
            decreases n - i,
        {
            proof {
                assert(self.chains_cache_view()[i as int] == (
                    ((self.font_impl_manager_map@[i as int].0).0,
                    (self.font_impl_manager_map@[i as int].0).1@),
                    self.font_impl_manager_map@[i as int].1@,
                ));
            }
            let entry = &self.font_impl_manager_map[i];
            if (entry.0).0 == scale && (entry.0).1.same(&font_id.font_type) {
                proof {
                    lemma_assoc_find_skip_found(chains0, i as int, ckey);
                }
                return entry.1.duplicate();
            }
            proof {
                lemma_assoc_find_skip_step(chains0, i as int, ckey);
            }
            i += 1;
        }
        proof {
            lemma_assoc_find_skip_end(chains0, ckey);
        }
        let ghost cache0 = self.impl_cache_view();
        let ghost tweaks0 = self.tweaks_view();
        let ghost ppp = self.spec_pixels_per_point_milli() as int;
        let ghost aid = self.spec_atlas_id();
        let ghost names_v = self.spec_type_fonts(font_id@.family)->Some_0;
        let ghost full_fold = chain_fold(cache0, tweaks0, ppp, aid, scale, names_v);
        let names = match self.definitions.get_type_fonts(&font_id.font_type) {
            Some(v) => v,
            None => {
                proof {
                    assert(false);
                }
                return FontImplManager::new(Vec::new());
            },
        };
        let m = names.len();
        let mut fonts: Vec<Arc<crate::impl_cache::FontImpl>> = Vec::new();
        let mut k: usize = 0;
        proof {
            assert(names_v.skip(0) =~= names_v);
        }
        while k < m
            invariant
                m == names.len(),
                k <= m,
                names@.map_values(|s: String| s@) == names_v,
                m == names_v.len(),
                old(self).wf(),
                self.fonts_impl_cache.wf(),
                self.spec_definitions() == old(self).spec_definitions(),
                self.spec_atlas() == old(self).spec_atlas(),
                self.spec_pixels_per_point_milli() == old(self).spec_pixels_per_point_milli(),
                self.spec_max_texture_side() == old(self).spec_max_texture_side(),
                self.chains_cache_view() == old(self).chains_cache_view(),
                self.tweaks_view() == tweaks0,
                tweaks0 == old(self).tweaks_view(),
                self.fonts_impl_cache.spec_atlas_id() == aid,
                aid == old(self).spec_atlas_id(),
                self.fonts_impl_cache.spec_pixels_per_point_milli() as int == ppp,
                ppp == old(self).spec_pixels_per_point_milli() as int,
                cache0 == old(self).impl_cache_view(),
                old(self).resolvable(font_id@),
                names_v == old(self).spec_type_fonts(font_id@.family)->Some_0,
                full_fold == chain_fold(cache0, tweaks0, ppp, aid, scale, names_v),
                full_fold.0 == chain_fold(
                    self.impl_cache_view(),
                    tweaks0,
                    ppp,
                    aid,
                    scale,
                    names_v.skip(k as int),
                ).0,
                full_fold.1 == fonts@.map_values(|f: Arc<crate::impl_cache::FontImpl>| f@)
                    + chain_fold(
                    self.impl_cache_view(),
                    tweaks0,
                    ppp,
                    aid,
                    scale,
                    names_v.skip(k as int),
                ).1,
                forall|t: int|
                    0 <= t < fonts@.len() ==> (#[trigger] fonts@[t])@.atlas_id == aid,
            decreases m - k,
        {
            proof {
                assert(names@.map_values(|s: String| s@)[k as int] == names@[k as int]@);
                assert(names_v.skip(k as int)[0] == names_v[k as int]);
                assert(assoc_find(old(self).fonts_view(), names_v[k as int]) is Some);
                assert(forall|t: int|
                    0 <= t < old(self).fonts_view().len() ==> old(self).fonts_view()[t].0 == (
                    #[trigger] tweaks0[t]).0);
                lemma_assoc_find_same_keys(
                    old(self).fonts_view(),
                    tweaks0,
                    names_v[k as int],
                );
                assert(self.fonts_impl_cache.spec_tweak(names_v[k as int]) is Some);
            }
            let ghost cache_pre = self.impl_cache_view();
            let built = self.fonts_impl_cache.font_impl(scale, &names[k]);
            proof {
                let step = impl_step(cache_pre, tweaks0, ppp, aid, scale, names_v[k as int]);
                assert((self.impl_cache_view(), built@) == step);
                assert(names_v.skip(k as int).drop_first() =~= names_v.skip(k + 1));
                assert(chain_fold(cache_pre, tweaks0, ppp, aid, scale, names_v.skip(k as int))
                    == (
                chain_fold(self.impl_cache_view(), tweaks0, ppp, aid, scale, names_v.skip(k + 1)).0,
                seq![built@] + chain_fold(
                    self.impl_cache_view(),
                    tweaks0,
                    ppp,
                    aid,
                    scale,
                    names_v.skip(k + 1),
                ).1,
                ));
            }
            proof {
                let key = (
                    effective_scale_of(
                        scale as int,
                        assoc_find(tweaks0, names_v[k as int])->Some_0.1.scale_milli as int,
                    ) as u32,
                    names_v[k as int],
                );
                if assoc_find(cache_pre, key) is Some {
                    crate::assoc::lemma_assoc_find_some(cache_pre, key);
                    let idx = choose|idx: int|
                        0 <= idx < cache_pre.len() && cache_pre[idx] == assoc_find(
                            cache_pre,
                            key,
                        )->Some_0;
                }
                assert(built@.atlas_id == aid);
            }
            let ghost fonts_pre = fonts@;
            fonts.push(built);
            proof {
                assert(fonts@.map_values(|f: Arc<crate::impl_cache::FontImpl>| f@)
                    =~= fonts_pre.map_values(|f: Arc<crate::impl_cache::FontImpl>| f@).push(
                    fonts@.last()@,
                ));
                assert(full_fold.1 =~= fonts@.map_values(
                    |f: Arc<crate::impl_cache::FontImpl>| f@,
                ) + chain_fold(
                    self.impl_cache_view(),
                    tweaks0,
                    ppp,
                    aid,
                    scale,
                    names_v.skip(k + 1),
                ).1);
            }
            k += 1;
        }
        proof {
            assert(names_v.skip(m as int) =~= Seq::<Seq<char>>::empty());
            assert(full_fold.0 == self.impl_cache_view());
            assert(full_fold.1 =~= fonts@.map_values(
                |f: Arc<crate::impl_cache::FontImpl>| f@,
            ));
        }
        let chain = FontImplManager::new(fonts);
        let stored = chain.duplicate();
        self.font_impl_manager_map.push(((scale, font_id.font_type.duplicate()), stored));
        proof {
            assert(self.chains_cache_view() =~~= chains0.push((ckey, chain@)));
            lemma_assoc_find_push(chains0, (ckey, chain@), ckey);
        }
        chain
    }

    /// Registers a font discovered at runtime for characters the current
    /// chains cannot draw: remembers its record under `font_name` (keeping
    /// any existing record of that name), appends the name to the built-in
    /// families' fallback chains, constructs its implementation at the
    /// style's pixel scale, and appends that implementation to the style's
    /// already-resolved chain, which gains the fallback without a rebuild.
    /// Fails if the record's bytes are not a parseable font; the style is
    /// still resolved and memoized, but nothing is registered.
    pub fn add_discovered_font(
        &mut self,
        main_font_id: &FontId,
        font_name: &String,
        bytes: Vec<u8>,
    ) -> (r: Result<(), FontCacheError>)
        requires
            old(self).wf(),
            old(self).resolvable(main_font_id@),
        ensures
            final(self).wf(),
            final(self).spec_pixels_per_point_milli() == old(self).spec_pixels_per_point_milli(),
            final(self).spec_max_texture_side() == old(self).spec_max_texture_side(),
            final(self).spec_atlas() == old(self).spec_atlas(),
            ({
                let rec = discovered_record(*old(self), font_name@, bytes@);
                r is Ok <==> crate::rasterize::font_parse_ok(rec.font, rec.index)
            }),
            match r {
                Ok(()) => {
                    let m0 = *old(self);
                    let rec = discovered_record(m0, font_name@, bytes@);
                    let scale = pixel_scale_of(
                        m0.spec_pixels_per_point_milli() as int,
                        main_font_id@.size_milli as int,
                    ) as u32;
                    let ckey = (scale, main_font_id@.family);
                    let tweaks1 = if m0.spec_definitions().spec_font_data(font_name@) is Some {
                        m0.tweaks_view()
                    } else {
                        m0.tweaks_view().push((font_name@, rec.tweak))
                    };
                    let step = impl_step(
                        resolved_impl_cache_of(m0, main_font_id@),
                        tweaks1,
                        m0.spec_pixels_per_point_milli() as int,
                        m0.spec_atlas_id(),
                        scale,
                        font_name@,
                    );
                    &&& final(self).fonts_view() == (if m0.spec_definitions().spec_font_data(
                        font_name@,
                    ) is Some {
                        m0.fonts_view()
                    } else {
                        m0.fonts_view().push((font_name@, rec))
                    })
                    &&& final(self).tweaks_view() == tweaks1
                    &&& final(self).impl_cache_view() == step.0
                    &&& final(self).spec_definitions().spec_font_data(font_name@) is Some
                    &&& final(self).spec_type_fonts(FontTypeView::Monospace) == Some(
                        (match m0.spec_type_fonts(FontTypeView::Monospace) {
                            Some(chain) => chain,
                            None => Seq::<Seq<char>>::empty(),
                        }).push(font_name@),
                    )
                    &&& final(self).spec_type_fonts(FontTypeView::Proportional) == Some(
                        (match m0.spec_type_fonts(FontTypeView::Proportional) {
                            Some(chain) => chain,
                            None => Seq::<Seq<char>>::empty(),
                        }).push(font_name@),
                    )
                    &&& forall|fam: FontTypeView|
                        fam != FontTypeView::Monospace && fam != FontTypeView::Proportional
                            ==> final(self).spec_type_fonts(fam) == m0.spec_type_fonts(fam)
                    &&& step.1.name == font_name@
                    &&& step.1.atlas_id == m0.spec_atlas_id()
                    &&& assoc_find(final(self).chains_cache_view(), ckey) == Some(
                        (ckey, resolved_chain_of(m0, main_font_id@).push(step.1)),
                    )
                    &&& forall|k2: (u32, FontTypeView)|
                        k2 != ckey ==> assoc_find(final(self).chains_cache_view(), k2)
                            == assoc_find(m0.chains_cache_view(), k2)
                },
                Err(e) => {
                    &&& e matches FontCacheError::InvalidFontBytes(_)
                    &&& final(self).spec_definitions() == old(self).spec_definitions()
                    &&& final(self).tweaks_view() == old(self).tweaks_view()
                    &&& old(self).resolve_post(
                        &*final(self),
                        main_font_id@,
                        resolved_chain_of(*old(self), main_font_id@),
                    )
                },
            },
    {
        let ghost bytes_v = bytes@;
        let ghost rec = discovered_record(*old(self), font_name@, bytes_v);
        let record = match self.definitions.get_font_data(font_name) {
            Some(existing) => existing.duplicate(),
            None => crate::font_types::FontData::from_owned(
                vstd::slice::slice_to_vec(bytes.as_slice()),
            ),
        };
        proof {
            assert(record@ =~~= rec);
        }
        // Resolve the style first, so the chain to extend is memoized.
        self.font(main_font_id);
        let ghost resolved_v = resolved_chain_of(*old(self), main_font_id@);
        let scale = self.fonts_impl_cache.scale_as_pixels(main_font_id.size_milli);
        let ghost ckey = (scale, main_font_id@.family);
        proof {
            match assoc_find(old(self).chains_cache_view(), ckey) {
                Some(e) => {
                    crate::assoc::lemma_assoc_find_some(old(self).chains_cache_view(), ckey);
                    assert(self.chains_cache_view() == old(self).chains_cache_view());
                },
                None => {
                    assert(self.chains_cache_view() == old(self).chains_cache_view().push(
                        (ckey, resolved_v),
                    ));
                    lemma_assoc_find_push(
                        old(self).chains_cache_view(),
                        (ckey, resolved_v),
                        ckey,
                    );
                },
            }
            assert(assoc_find(self.chains_cache_view(), ckey) == Some((ckey, resolved_v)));
            assert forall|k2: (u32, FontTypeView)|
                k2 != ckey implies assoc_find(self.chains_cache_view(), k2) == assoc_find(
                old(self).chains_cache_view(),
                k2,
            ) by {
                if assoc_find(old(self).chains_cache_view(), ckey) is None {
                    lemma_assoc_find_push(
                        old(self).chains_cache_view(),
                        (ckey, resolved_v),
                        k2,
                    );
                }
            }
            assert(self.impl_cache_view() == resolved_impl_cache_of(*old(self), main_font_id@));
        }
        match self.fonts_impl_cache.register_font_source(
            font_name,
            record.tweak,
            &record.font,
            record.index,
        ) {
            Ok(()) => {},
            Err(e) => {
                proof {
                    assert(self.wf());
                }
                return Err(e);
            },
        }
        let ghost tweak_used = record.tweak;
        let ghost fonts_before = self.fonts_view();
        let ghost tweaks_before = old(self).tweaks_view();
        proof {
            assert(fonts_before == old(self).fonts_view());
            assert(tweaks_before == fonts_before.map_values(
                |e: (Seq<char>, FontDataView)| (e.0, e.1.tweak),
            ));
            assert(forall|t: int|
                0 <= t < fonts_before.len() ==> fonts_before[t].0 == (
                #[trigger] tweaks_before[t]).0);
            lemma_assoc_find_same_keys(fonts_before, tweaks_before, font_name@);
        }
        let ghost record_v = record@;
        self.definitions.register_font_if_new(font_name, record);
        proof {
            if assoc_find(fonts_before, font_name@) is None {
                assert(self.fonts_view() == fonts_before.push((font_name@, record_v)));
                assert(self.tweaks_view() == tweaks_before.push((font_name@, tweak_used)));
                assert(record_v.tweak == tweak_used);
                assert(self.tweaks_view() =~~= self.fonts_view().map_values(
                    |e: (Seq<char>, FontDataView)| (e.0, e.1.tweak),
                ));
            } else {
                assert(self.fonts_view() == fonts_before);
                assert(self.tweaks_view() == tweaks_before);
            }
        }
        let ghost fonts1 = self.fonts_view();
        let ghost tweaks1g = self.tweaks_view();
        proof {
            assert(fonts1 == (if old(self).spec_definitions().spec_font_data(font_name@)
                is Some {
                old(self).fonts_view()
            } else {
                old(self).fonts_view().push((font_name@, rec))
            }));
            assert(tweaks1g == (if old(self).spec_definitions().spec_font_data(font_name@)
                is Some {
                old(self).tweaks_view()
            } else {
                old(self).tweaks_view().push((font_name@, rec.tweak))
            }));
        }
        self.definitions.append_type_font(&FontType::Monospace, font_name);
        self.definitions.append_type_font(&FontType::Proportional, font_name);
        proof {
            assert(self.tweaks_view() =~~= self.fonts_view().map_values(
                |e: (Seq<char>, FontDataView)| (e.0, e.1.tweak),
            ));
            assert(self.wf());
        }
        let ghost cache_pre = self.impl_cache_view();
        let ghost tweaks_pre = self.tweaks_view();
        let ghost stepg = crate::impl_cache::impl_step(
            resolved_impl_cache_of(*old(self), main_font_id@),
            tweaks1g,
            old(self).spec_pixels_per_point_milli() as int,
            old(self).spec_atlas_id(),
            scale,
            font_name@,
        );
        let new_impl = self.fonts_impl_cache.font_impl(scale, font_name);
        proof {
            assert(cache_pre == resolved_impl_cache_of(*old(self), main_font_id@));
            assert(tweaks_pre == tweaks1g);
            let key = (
                crate::scale::effective_scale_of(
                    scale as int,
                    assoc_find(tweaks_pre, font_name@)->Some_0.1.scale_milli as int,
                ) as u32,
                font_name@,
            );
            if assoc_find(cache_pre, key) is Some {
                crate::assoc::lemma_assoc_find_some(cache_pre, key);
                let idx = choose|idx: int|
                    0 <= idx < cache_pre.len() && cache_pre[idx] == assoc_find(
                        cache_pre,
                        key,
                    )->Some_0;
            }
            assert(new_impl@.name == font_name@);
            assert(new_impl@.atlas_id == old(self).spec_atlas_id());
            assert((self.impl_cache_view(), new_impl@) == stepg);
        }
        let ghost snap = *self;
        let ghost chains1 = self.chains_cache_view();
        proof {
            assert(chains1.skip(0) =~= chains1);
        }
        let n = self.font_impl_manager_map.len();
        let mut i: usize = 0;
        while i < n
            invariant
                n == self.font_impl_manager_map.len(),
                i <= n,
                *self == snap,
                snap.wf(),
                chains1 == self.chains_cache_view(),
                snap.spec_pixels_per_point_milli() == old(self).spec_pixels_per_point_milli(),
                snap.spec_max_texture_side() == old(self).spec_max_texture_side(),
                snap.spec_atlas() == old(self).spec_atlas(),
                snap.spec_definitions().spec_font_data(font_name@) is Some,
                snap.spec_type_fonts(FontTypeView::Monospace) == Some(
                    (match old(self).spec_type_fonts(FontTypeView::Monospace) {
                        Some(chain) => chain,
                        None => Seq::<Seq<char>>::empty(),
                    }).push(font_name@),
                ),
                snap.spec_type_fonts(FontTypeView::Proportional) == Some(
                    (match old(self).spec_type_fonts(FontTypeView::Proportional) {
                        Some(chain) => chain,
                        None => Seq::<Seq<char>>::empty(),
                    }).push(font_name@),
                ),
                forall|fam: FontTypeView|
                    fam != FontTypeView::Monospace && fam != FontTypeView::Proportional
                        ==> snap.spec_type_fonts(fam) == old(self).spec_type_fonts(fam),
                rec == discovered_record(*old(self), font_name@, bytes_v),
                bytes_v == bytes@,
                crate::rasterize::font_parse_ok(rec.font, rec.index),
                snap.fonts_view() == (if old(self).spec_definitions().spec_font_data(font_name@)
                    is Some {
                    old(self).fonts_view()
                } else {
                    old(self).fonts_view().push((font_name@, rec))
                }),
                snap.tweaks_view() == tweaks1g,
                tweaks1g == (if old(self).spec_definitions().spec_font_data(font_name@) is Some {
                    old(self).tweaks_view()
                } else {
                    old(self).tweaks_view().push((font_name@, rec.tweak))
                }),
                stepg == crate::impl_cache::impl_step(
                    resolved_impl_cache_of(*old(self), main_font_id@),
                    tweaks1g,
                    old(self).spec_pixels_per_point_milli() as int,
                    old(self).spec_atlas_id(),
                    scale,
                    font_name@,
                ),
                snap.impl_cache_view() == stepg.0,
                new_impl@ == stepg.1,
                new_impl@.name == font_name@,
                new_impl@.atlas_id == old(self).spec_atlas_id(),
                scale == pixel_scale_of(
                    old(self).spec_pixels_per_point_milli() as int,
                    main_font_id@.size_milli as int,
                ) as u32,
                assoc_find(chains1, (scale, main_font_id@.family)) == Some(
                    ((scale, main_font_id@.family), resolved_v),
                ),
                resolved_v == resolved_chain_of(*old(self), main_font_id@),
                forall|k2: (u32, FontTypeView)|
                    k2 != ckey ==> assoc_find(chains1, k2) == assoc_find(
                        old(self).chains_cache_view(),
                        k2,
                    ),
                ckey == (scale, main_font_id@.family),
                assoc_find(chains1.skip(i as int), ckey) == assoc_find(chains1, ckey),
                forall|t: int| 0 <= t < i ==> chains1[t].0 != ckey,
            decreases n - i,
        {
            proof {
                assert(self.chains_cache_view()[i as int] == (
                    ((self.font_impl_manager_map@[i as int].0).0,
                    (self.font_impl_manager_map@[i as int].0).1@),
                    self.font_impl_manager_map@[i as int].1@,
                ));
            }
            let key_matches = {
                let entry = &self.font_impl_manager_map[i];
                (entry.0).0 == scale && (entry.0).1.same(&main_font_id.font_type)
            };
            if key_matches {
                proof {
                    lemma_assoc_find_skip_found(chains1, i as int, ckey);
                }
                let entry = &mut self.font_impl_manager_map[i];
                entry.1.push_font_impl(new_impl);
                proof {
                    let extended = (
                        chains1[i as int].0,
                        chains1[i as int].1.push(new_impl@),
                    );
                    assert(self.chains_cache_view() =~~= chains1.update(i as int, extended));
                    lemma_assoc_find_update(
                        chains1,
                        i as int,
                        chains1[i as int].1.push(new_impl@),
                        ckey,
                    );
                    assert(self.spec_definitions() == snap.spec_definitions());
                    assert(self.spec_pixels_per_point_milli()
                        == snap.spec_pixels_per_point_milli());
                    assert(self.spec_max_texture_side() == snap.spec_max_texture_side());
                    assert(self.spec_atlas() == snap.spec_atlas());
                    assert(self.tweaks_view() == snap.tweaks_view());
                    assert(self.fonts_view() == snap.fonts_view());
                    assert forall|fam: FontTypeView|
                        fam != FontTypeView::Monospace && fam != FontTypeView::Proportional
                            implies self.spec_type_fonts(fam) == old(self).spec_type_fonts(
                        fam,
                    ) by {
                        assert(snap.spec_type_fonts(fam) == old(self).spec_type_fonts(fam));
                    }
                    assert(self.impl_cache_view() == snap.impl_cache_view());
                    assert(self.fonts_view() == snap.fonts_view());
                }
                return Ok(());
            }
            proof {
                lemma_assoc_find_skip_step(chains1, i as int, ckey);
            }
            i += 1;
        }
        proof {
            lemma_assoc_find_skip_end(chains1, ckey);
            assert(false);
        }
        Ok(())
    }
}
/// The implementation cache that resolving `fid` leaves behind: unchanged
/// on a chain-cache hit, the folded one on a miss.
pub open spec fn resolved_impl_cache_of(m: FontsManager, fid: FontIdView) -> Seq<
    ((u32, Seq<char>), FontImplView),
> {
    let scale = pixel_scale_of(m.spec_pixels_per_point_milli() as int, fid.size_milli as int)
        as u32;
    let ckey = (scale, fid.family);
    match assoc_find(m.chains_cache_view(), ckey) {
        Some(e) => m.impl_cache_view(),
        None => chain_fold(
            m.impl_cache_view(),
            m.tweaks_view(),
            m.spec_pixels_per_point_milli() as int,
            m.spec_atlas_id(),
            scale,
            m.spec_type_fonts(fid.family)->Some_0,
        ).0,
    }
}

/// The record the dynamic-fallback registration parses for `name`: the
/// already-registered record if one exists, else a fresh record of the
/// given bytes at face index 0 with the default tweak.
pub open spec fn discovered_record(
    m: FontsManager,
    name: Seq<char>,
    bytes: Seq<u8>,
) -> FontDataView {
    match m.spec_definitions().spec_font_data(name) {
        Some(d) => d,
        None => FontDataView { font: bytes, index: 0u32, tweak: default_tweak() },
    }
}

/// The chain that resolving `fid` yields: the cached one on a hit, the
/// folded one on a miss.
pub open spec fn resolved_chain_of(m: FontsManager, fid: FontIdView) -> Seq<FontImplView> {
    let scale = pixel_scale_of(m.spec_pixels_per_point_milli() as int, fid.size_milli as int)
        as u32;
    let ckey = (scale, fid.family);
    match assoc_find(m.chains_cache_view(), ckey) {
        Some(e) => e.1,
        None => chain_fold(
            m.impl_cache_view(),
            m.tweaks_view(),
            m.spec_pixels_per_point_milli() as int,
            m.spec_atlas_id(),
            scale,
            m.spec_type_fonts(fid.family)->Some_0,
        ).1,
    }
}

/// The orchestrator's full mutable state: the font manager and the layout
/// cache, mutated together under one owner.
pub struct FontManagerAndGallyCache {
    /// The fonts, caches and atlas of the current configuration.
    pub font_manager: FontsManager,
    pub(crate) galley_cache: GalleyCache,
}

impl FontManagerAndGallyCache {
    pub closed spec fn spec_font_manager(&self) -> FontsManager {
        self.font_manager
    }

    pub closed spec fn spec_galley_cache(&self) -> GalleyCache {
        self.galley_cache
    }

    /// The cached layout results.
    pub open spec fn galley_entries(&self) -> Seq<(u64, CachedGalleyView)> {
        self.spec_galley_cache().entries_view()
    }

    /// No cached layout result may reference any atlas but the current one:
    /// this is what makes the rebuild step safe.
    pub open spec fn galleys_current(&self) -> bool {
        forall|t: int|
            0 <= t < self.galley_entries().len() ==> (#[trigger] self.galley_entries()[t]).1.galley.atlas_id
                == self.spec_font_manager().spec_atlas_id()
    }

    pub open spec fn wf(&self) -> bool {
        &&& self.spec_font_manager().wf()
        &&& self.spec_galley_cache().wf()
        &&& self.galleys_current()
    }

    /// Lays `job` out through the galley cache.
    pub fn layout_job(&mut self, job: LayoutJob) -> (r: Arc<Galley>)
        requires
            old(self).wf(),
            old(self).spec_font_manager().resolvable(job.font_id@),
        ensures
            final(self).wf(),
            final(self).spec_galley_cache().spec_generation() == old(
                self,
            ).spec_galley_cache().spec_generation(),
            ({
                let h = job_hash_of(job@);
                match assoc_find(old(self).galley_entries(), h) {
                    Some(e) => {
                        &&& r@ == e.1.galley
                        &&& final(self).spec_font_manager() == old(self).spec_font_manager()
                        &&& final(self).spec_galley_cache().spec_computed() == old(
                            self,
                        ).spec_galley_cache().spec_computed()
                        &&& assoc_find(final(self).galley_entries(), h) == Some(
                            (
                                h,
                                CachedGalleyView {
                                    last_used: old(self).spec_galley_cache().spec_generation(),
                                    galley: e.1.galley,
                                },
                            ),
                        )
                        &&& forall|k2: u64|
                            k2 != h ==> assoc_find(final(self).galley_entries(), k2) == assoc_find(
                                old(self).galley_entries(),
                                k2,
                            )
                    },
                    None => {
                        &&& old(self).spec_font_manager().resolve_post(
                            &final(self).spec_font_manager(),
                            job.font_id@,
                            resolved_chain_of(old(self).spec_font_manager(), job.font_id@),
                        )
                        &&& r@.job == job@
                        &&& r@.atlas_id == old(self).spec_font_manager().spec_atlas_id()
                        &&& final(self).spec_galley_cache().spec_computed() == next_computed(
                            old(self).spec_galley_cache().spec_computed(),
                        )
                        &&& final(self).galley_entries() == old(self).galley_entries().push(
                            (
                                h,
                                CachedGalleyView {
                                    last_used: old(self).spec_galley_cache().spec_generation(),
                                    galley: r@,
                                },
                            ),
                        )
                    },
                }
            }),
    {
        let r = self.galley_cache.layout(&mut self.font_manager, job);
        proof {
            if assoc_find(old(self).galley_entries(), job_hash_of(job@)) is None {
                assert(self.galleys_current());
            }
        }
        r
    }
}

/// Whether the per-frame step must discard and rebuild all cached state:
/// the pixel ratio moved by more than a thousandth, the texture size limit
/// changed, or the atlas is over eight tenths full.
pub open spec fn spec_needs_rebuild(
    m: FontsManager,
    pixels_per_point_milli: u32,
    max_texture_side: usize,
) -> bool {
    ||| (if m.spec_pixels_per_point_milli() >= pixels_per_point_milli {
        m.spec_pixels_per_point_milli() - pixels_per_point_milli
    } else {
        pixels_per_point_milli - m.spec_pixels_per_point_milli()
    }) > 1
    ||| m.spec_max_texture_side() != max_texture_side
    ||| m.spec_atlas().spec_fill_permille() > ATLAS_FULL_PERMILLE
}

/// The collection of fonts used to paint text, with every cache this
/// library maintains. Create one, call [`FontPaintManager::begin_frame`]
/// once per frame, and submit layout requests through it.
pub struct FontPaintManager {
    inner: FontManagerAndGallyCache,
}

impl FontPaintManager {
    pub closed spec fn spec_inner(&self) -> FontManagerAndGallyCache {
        self.inner
    }

    /// The font manager of the current configuration.
    pub open spec fn spec_manager(&self) -> FontsManager {
        self.spec_inner().spec_font_manager()
    }

    /// The cached layout results.
    pub open spec fn galley_entries(&self) -> Seq<(u64, CachedGalleyView)> {
        self.spec_inner().galley_entries()
    }

    /// The layout cache's generation counter.
    pub open spec fn spec_generation(&self) -> u32 {
        self.spec_inner().spec_galley_cache().spec_generation()
    }

    pub open spec fn wf(&self) -> bool {
        self.spec_inner().wf()
    }

    /// Builds the orchestrator: validates the pixel ratio, parses every
    /// registered font, and starts with empty caches and a fresh atlas.
    pub fn new(
        pixels_per_point_milli: u32,
        max_texture_side: usize,
        definitions: FontDefinitions,
    ) -> (r: Result<FontPaintManager, FontCacheError>)
        ensures
            match r {
                Ok(m) => {
                    &&& 0 < pixels_per_point_milli < 100000
                    &&& m.wf()
                    &&& m.spec_manager().spec_pixels_per_point_milli() == pixels_per_point_milli
                    &&& m.spec_manager().spec_max_texture_side() == max_texture_side
                    &&& m.spec_manager().spec_definitions() == definitions
                    &&& m.spec_manager().spec_atlas_id() == 0
                    &&& m.spec_manager().impl_cache_view() == Seq::<
                        ((u32, Seq<char>), FontImplView),
                    >::empty()
                    &&& m.spec_manager().chains_cache_view() == ChainCacheView::empty()
                    &&& m.galley_entries() == Seq::<(u64, CachedGalleyView)>::empty()
                    &&& m.spec_generation() == 0
                    &&& m.spec_inner().spec_galley_cache().spec_computed() == 0
                },
                Err(FontCacheError::PixelRatioOutOfRange) => !(0 < pixels_per_point_milli
                    < 100000),
                Err(FontCacheError::InvalidFontBytes(_)) => {
                    &&& 0 < pixels_per_point_milli < 100000
                    &&& exists|i: int|
                        0 <= i < definitions.fonts_view().len() && !crate::rasterize::font_parse_ok(
                            (#[trigger] definitions.fonts_view()[i]).1.font,
                            definitions.fonts_view()[i].1.index,
                        )
                },
            },
    {
        let font_manager = match FontsManager::new(
            pixels_per_point_milli,
            max_texture_side,
            definitions,
        ) {
            Ok(m) => m,
            Err(e) => {
                return Err(e);
            },
        };
        Ok(
            FontPaintManager {
                inner: FontManagerAndGallyCache { font_manager, galley_cache: GalleyCache::new() },
            },
        )
    }

    /// Access the full mutable state.
    pub fn lock(&self) -> (r: &FontManagerAndGallyCache)
        ensures
            *r == self.spec_inner(),
    {
        &self.inner
    }

    /// The per-frame step. Must be called once per frame, before any layout
    /// request of that frame. If the pixel ratio moved by more than a
    /// thousandth, the texture size limit changed, or the atlas is over
    /// eight tenths full, every cache and the atlas are discarded and
    /// rebuilt from the retained catalog in one step; either way the layout
    /// cache then runs its per-frame eviction.
    pub fn begin_frame(&mut self, pixels_per_point_milli: u32, max_texture_side: usize)
        requires
            old(self).wf(),
            0 < pixels_per_point_milli < 100000,
        ensures
            final(self).wf(),
            if spec_needs_rebuild(
                old(self).spec_manager(),
                pixels_per_point_milli,
                max_texture_side,
            ) {
                &&& final(self).spec_manager().spec_pixels_per_point_milli()
                    == pixels_per_point_milli
                &&& final(self).spec_manager().spec_max_texture_side() == max_texture_side
                &&& final(self).spec_manager().spec_definitions() == old(
                    self,
                ).spec_manager().spec_definitions()
                &&& final(self).spec_manager().spec_atlas_id() == next_atlas_id(
                    old(self).spec_manager().spec_atlas_id(),
                )
                &&& final(self).spec_manager().spec_atlas().spec_allocated() == 0
                &&& final(self).spec_manager().impl_cache_view() == Seq::<
                    ((u32, Seq<char>), FontImplView),
                >::empty()
                &&& final(self).spec_manager().chains_cache_view() == ChainCacheView::empty()
                &&& final(self).galley_entries() == Seq::<(u64, CachedGalleyView)>::empty()
                &&& final(self).spec_generation() == 1
                &&& final(self).spec_inner().spec_galley_cache().spec_computed() == 0
            } else {
                &&& final(self).spec_manager() == old(self).spec_manager()
                &&& final(self).galley_entries() == old(self).galley_entries().filter(
                    crate::galley::used_in(old(self).spec_generation()),
                )
                &&& final(self).spec_generation() == next_generation(old(self).spec_generation())
                &&& final(self).spec_inner().spec_galley_cache().spec_computed() == old(
                    self,
                ).spec_inner().spec_galley_cache().spec_computed()
            },
    {
        let current_ppp = self.inner.font_manager.pixels_per_point();
        let diff = if current_ppp >= pixels_per_point_milli {
            current_ppp - pixels_per_point_milli
        } else {
            pixels_per_point_milli - current_ppp
        };
        let pixels_per_point_changed = diff > 1;
        let max_texture_side_changed = self.inner.font_manager.max_texture_side()
            != max_texture_side;
        let font_atlas_almost_full = self.inner.font_manager.texture_atlas().fill_ratio_permille()
            > ATLAS_FULL_PERMILLE;
        let needs_recreate = pixels_per_point_changed || max_texture_side_changed
            || font_atlas_almost_full;
        if needs_recreate {
            self.inner.font_manager.recreate(pixels_per_point_milli, max_texture_side);
            self.inner.galley_cache = GalleyCache::new();
            proof {
                reveal(Seq::filter);
                assert(self.inner.galley_entries().filter(crate::galley::used_in(0u32)) =~= Seq::<
                    (u64, CachedGalleyView),
                >::empty());
            }
        }
        let ghost before_flush = self.inner.galley_entries();
        let ghost gen_before = self.inner.spec_galley_cache().spec_generation();
        self.inner.galley_cache.flush_cache();
        proof {
            assert forall|t: int|
                0 <= t < self.inner.galley_entries().len() implies (
            #[trigger] self.inner.galley_entries()[t]).1.galley.atlas_id
                == self.inner.spec_font_manager().spec_atlas_id() by {
                crate::assoc::lemma_filter_elem(
                    before_flush,
                    crate::galley::used_in(gen_before),
                    t,
                );
            }
        }
    }

    /// The change to the atlas since the last call, to upload before
    /// painting. Call once at the end of each frame.
    pub fn font_image_delta(&mut self) -> (r: Option<ImageDelta>)
        requires
            old(self).wf(),
        ensures
            final(self).wf(),
            final(self).spec_manager().spec_atlas_id() == old(self).spec_manager().spec_atlas_id(),
            final(self).galley_entries() == old(self).galley_entries(),
            final(self).spec_manager().spec_atlas().spec_allocated() == old(
                self,
            ).spec_manager().spec_atlas().spec_allocated(),
            final(self).spec_manager().spec_atlas().spec_taken() == old(
                self,
            ).spec_manager().spec_atlas().spec_allocated(),
            final(self).spec_manager().spec_atlas().spec_width() == old(
                self,
            ).spec_manager().spec_atlas().spec_width(),
            final(self).spec_manager().spec_atlas().spec_height() == old(
                self,
            ).spec_manager().spec_atlas().spec_height(),
            r == (if old(self).spec_manager().spec_atlas().spec_taken() < old(
                self,
            ).spec_manager().spec_atlas().spec_allocated() {
                Some(
                    ImageDelta {
                        from_px: old(self).spec_manager().spec_atlas().spec_taken(),
                        to_px: old(self).spec_manager().spec_atlas().spec_allocated(),
                    },
                )
            } else {
                None::<ImageDelta>
            }),
    {
        self.inner.font_manager.take_atlas_delta()
    }

    /// Claims atlas space on behalf of glyph rasterization.
    pub fn claim_atlas_space(&mut self, px: u64)
        requires
            old(self).wf(),
        ensures
            final(self).wf(),
            final(self).spec_manager().spec_atlas_id() == old(self).spec_manager().spec_atlas_id(),
            final(self).galley_entries() == old(self).galley_entries(),
            final(self).spec_manager().spec_atlas().spec_allocated() == (if old(
                self,
            ).spec_manager().spec_atlas().spec_allocated() + px > old(
                self,
            ).spec_manager().spec_atlas().spec_capacity() {
                old(self).spec_manager().spec_atlas().spec_capacity()
            } else {
                old(self).spec_manager().spec_atlas().spec_allocated() + px
            }),
    {
        self.inner.font_manager.claim_atlas_space(px);
    }

    pub fn pixels_per_point(&self) -> (r: u32)
        ensures
            r == self.spec_manager().spec_pixels_per_point_milli(),
    {
        self.inner.font_manager.pixels_per_point()
    }

    pub fn max_texture_side(&self) -> (r: usize)
        ensures
            r == self.spec_manager().spec_max_texture_side(),
    {
        self.inner.font_manager.max_texture_side()
    }

    /// The shared atlas.
    pub fn texture_atlas(&self) -> (r: &TextureAtlas)
        ensures
            *r == self.spec_manager().spec_atlas(),
    {
        self.inner.font_manager.texture_atlas()
    }

    /// Current size of the atlas bitmap.
    pub fn font_image_size(&self) -> (r: [usize; 2])
        ensures
            r[0] == self.spec_manager().spec_atlas().spec_width(),
            r[1] == self.spec_manager().spec_atlas().spec_height(),
    {
        self.inner.font_manager.texture_atlas().size()
    }

    /// How full the atlas is, in thousandths.
    pub fn font_atlas_fill_ratio(&self) -> (r: u32)
        requires
            self.wf(),
        ensures
            r == self.spec_manager().spec_atlas().spec_fill_permille(),
    {
        self.inner.font_manager.texture_atlas().fill_ratio_permille()
    }

    /// List of all known font families, in catalog order.
    pub fn families(&self) -> (r: Vec<FontType>)
        ensures
            r@.map_values(|t: FontType| t@) == self.spec_manager().spec_definitions().chains_view()
                .map_values(|e: (FontTypeView, Seq<Seq<char>>)| e.0),
    {
        let defs = self.inner.font_manager.definitions();
        let ghost target = self.spec_manager().spec_definitions().chains_view().map_values(
            |e: (FontTypeView, Seq<Seq<char>>)| e.0,
        );
        let mut r: Vec<FontType> = Vec::new();
        let n = defs.type_fonts.len();
        let mut i: usize = 0;
        while i < n
            invariant
                n == defs.type_fonts.len(),
                target == defs.chains_view().map_values(
                    |e: (FontTypeView, Seq<Seq<char>>)| e.0,
                ),
                i <= n,
                r@.len() == i,
                r@.map_values(|t: FontType| t@) =~~= target.take(i as int),
            decreases n - i,
        {
            r.push(defs.type_fonts[i].0.duplicate());
            proof {
                assert(r@.map_values(|t: FontType| t@) =~~= target.take(i + 1));
            }
            i += 1;
        }
        proof {
            assert(r@.map_values(|t: FontType| t@) =~~= target);
        }
        r
    }

    /// Whether the catalog can resolve this style.
    pub fn can_resolve(&self, font_id: &FontId) -> (r: bool)
        ensures
            r == self.spec_manager().resolvable(font_id@),
    {
        self.inner.font_manager.can_resolve(font_id)
    }

    /// The fallback chain for a style, memoized per (pixel scale, family).
    pub fn font(&mut self, font_id: &FontId) -> (chain: FontImplManager)
        requires
            old(self).wf(),
            old(self).spec_manager().resolvable(font_id@),
        ensures
            final(self).wf(),
            final(self).galley_entries() == old(self).galley_entries(),
            final(self).spec_generation() == old(self).spec_generation(),
            old(self).spec_manager().resolve_post(
                &final(self).spec_manager(),
                font_id@,
                chain@,
            ),
    {
        self.inner.font_manager.font(font_id)
    }

    /// Lays out a request, memoized across calls within a frame.
    pub fn layout_job(&mut self, job: LayoutJob) -> (r: Arc<Galley>)
        requires
            old(self).wf(),
            old(self).spec_manager().resolvable(job.font_id@),
        ensures
            final(self).wf(),
            final(self).spec_generation() == old(self).spec_generation(),
            ({
                let h = job_hash_of(job@);
                match assoc_find(old(self).galley_entries(), h) {
                    Some(e) => {
                        &&& r@ == e.1.galley
                        &&& final(self).spec_manager() == old(self).spec_manager()
                        &&& final(self).spec_inner().spec_galley_cache().spec_computed() == old(
                            self,
                        ).spec_inner().spec_galley_cache().spec_computed()
                        &&& assoc_find(final(self).galley_entries(), h) == Some(
                            (
                                h,
                                CachedGalleyView {
                                    last_used: old(self).spec_generation(),
                                    galley: e.1.galley,
                                },
                            ),
                        )
                        &&& forall|k2: u64|
                            k2 != h ==> assoc_find(final(self).galley_entries(), k2) == assoc_find(
                                old(self).galley_entries(),
                                k2,
                            )
                    },
                    None => {
                        &&& old(self).spec_manager().resolve_post(
                            &final(self).spec_manager(),
                            job.font_id@,
                            resolved_chain_of(old(self).spec_manager(), job.font_id@),
                        )
                        &&& r@.job == job@
                        &&& r@.atlas_id == old(self).spec_manager().spec_atlas_id()
                        &&& final(self).spec_inner().spec_galley_cache().spec_computed()
                            == next_computed(
                            old(self).spec_inner().spec_galley_cache().spec_computed(),
                        )
                        &&& final(self).galley_entries() == old(self).galley_entries().push(
                            (
                                h,
                                CachedGalleyView {
                                    last_used: old(self).spec_generation(),
                                    galley: r@,
                                },
                            ),
                        )
                    },
                }
            }),
    {
        self.inner.layout_job(job)
    }

    /// Wraps text at the given width and breaks lines at newlines.
    pub fn layout(
        &mut self,
        text: String,
        font_id: FontId,
        color: crate::galley::Color32,
        wrap_width_milli: u32,
    ) -> (r: Arc<Galley>)
        requires
            old(self).wf(),
            old(self).spec_manager().resolvable(font_id@),
        ensures
            final(self).wf(),
            final(self).spec_generation() == old(self).spec_generation(),
            ({
                let jv = LayoutJobView { text: text@, font_id: font_id@, color, wrap_width_milli };
                let h = job_hash_of(jv);
                match assoc_find(old(self).galley_entries(), h) {
                    Some(e) => {
                        &&& r@ == e.1.galley
                        &&& final(self).spec_manager() == old(self).spec_manager()
                        &&& final(self).spec_inner().spec_galley_cache().spec_computed() == old(
                            self,
                        ).spec_inner().spec_galley_cache().spec_computed()
                        &&& assoc_find(final(self).galley_entries(), h) == Some(
                            (
                                h,
                                CachedGalleyView {
                                    last_used: old(self).spec_generation(),
                                    galley: e.1.galley,
                                },
                            ),
                        )
                        &&& forall|k2: u64|
                            k2 != h ==> assoc_find(final(self).galley_entries(), k2) == assoc_find(
                                old(self).galley_entries(),
                                k2,
                            )
                    },
                    None => {
                        &&& old(self).spec_manager().resolve_post(
                            &final(self).spec_manager(),
                            jv.font_id,
                            resolved_chain_of(old(self).spec_manager(), jv.font_id),
                        )
                        &&& r@.job == jv
                        &&& r@.atlas_id == old(self).spec_manager().spec_atlas_id()
                        &&& final(self).spec_inner().spec_galley_cache().spec_computed()
                            == next_computed(
                            old(self).spec_inner().spec_galley_cache().spec_computed(),
                        )
                        &&& final(self).galley_entries() == old(self).galley_entries().push(
                            (
                                h,
                                CachedGalleyView {
                                    last_used: old(self).spec_generation(),
                                    galley: r@,
                                },
                            ),
                        )
                    },
                }
            }),
    {
        let job = LayoutJob::simple(text, font_id, color, wrap_width_milli);
        self.layout_job(job)
    }

    /// Breaks lines only at newlines.
    pub fn layout_no_wrap(
        &mut self,
        text: String,
        font_id: FontId,
        color: crate::galley::Color32,
    ) -> (r: Arc<Galley>)
        requires
            old(self).wf(),
            old(self).spec_manager().resolvable(font_id@),
        ensures
            final(self).wf(),
            final(self).spec_generation() == old(self).spec_generation(),
            ({
                let jv = (LayoutJobView {
                    text: text@,
                    font_id: font_id@,
                    color,
                    wrap_width_milli: crate::galley::NO_WRAP_WIDTH_MILLI,
                });
                let h = job_hash_of(jv);
                match assoc_find(old(self).galley_entries(), h) {
                    Some(e) => {
                        &&& r@ == e.1.galley
                        &&& final(self).spec_manager() == old(self).spec_manager()
                        &&& final(self).spec_inner().spec_galley_cache().spec_computed() == old(
                            self,
                        ).spec_inner().spec_galley_cache().spec_computed()
                        &&& assoc_find(final(self).galley_entries(), h) == Some(
                            (
                                h,
                                CachedGalleyView {
                                    last_used: old(self).spec_generation(),
                                    galley: e.1.galley,
                                },
                            ),
                        )
                        &&& forall|k2: u64|
                            k2 != h ==> assoc_find(final(self).galley_entries(), k2) == assoc_find(
                                old(self).galley_entries(),
                                k2,
                            )
                    },
                    None => {
                        &&& old(self).spec_manager().resolve_post(
                            &final(self).spec_manager(),
                            jv.font_id,
                            resolved_chain_of(old(self).spec_manager(), jv.font_id),
                        )
                        &&& r@.job == jv
                        &&& r@.atlas_id == old(self).spec_manager().spec_atlas_id()
                        &&& final(self).spec_inner().spec_galley_cache().spec_computed()
                            == next_computed(
                            old(self).spec_inner().spec_galley_cache().spec_computed(),
                        )
                        &&& final(self).galley_entries() == old(self).galley_entries().push(
                            (
                                h,
                                CachedGalleyView {
                                    last_used: old(self).spec_generation(),
                                    galley: r@,
                                },
                            ),
                        )
                    },
                }
            }),
    {
        self.layout(text, font_id, color, crate::galley::NO_WRAP_WIDTH_MILLI)
    }

    /// Like [`FontPaintManager::layout`], for when the color is chosen
    /// later.
    pub fn layout_delayed_color(
        &mut self,
        text: String,
        font_id: FontId,
        wrap_width_milli: u32,
    ) -> (r: Arc<Galley>)
        requires
            old(self).wf(),
            old(self).spec_manager().resolvable(font_id@),
        ensures
            final(self).wf(),
            final(self).spec_generation() == old(self).spec_generation(),
            ({
                let jv = (LayoutJobView {
                    text: text@,
                    font_id: font_id@,
                    color: Color32 { r: 64u8, g: 254u8, b: 0u8, a: 255u8 },
                    wrap_width_milli,
                });
                let h = job_hash_of(jv);
                match assoc_find(old(self).galley_entries(), h) {
                    Some(e) => {
                        &&& r@ == e.1.galley
                        &&& final(self).spec_manager() == old(self).spec_manager()
                        &&& final(self).spec_inner().spec_galley_cache().spec_computed() == old(
                            self,
                        ).spec_inner().spec_galley_cache().spec_computed()
                        &&& assoc_find(final(self).galley_entries(), h) == Some(
                            (
                                h,
                                CachedGalleyView {
                                    last_used: old(self).spec_generation(),
                                    galley: e.1.galley,
                                },
                            ),
                        )
                        &&& forall|k2: u64|
                            k2 != h ==> assoc_find(final(self).galley_entries(), k2) == assoc_find(
                                old(self).galley_entries(),
                                k2,
                            )
                    },
                    None => {
                        &&& old(self).spec_manager().resolve_post(
                            &final(self).spec_manager(),
                            jv.font_id,
                            resolved_chain_of(old(self).spec_manager(), jv.font_id),
                        )
                        &&& r@.job == jv
                        &&& r@.atlas_id == old(self).spec_manager().spec_atlas_id()
                        &&& final(self).spec_inner().spec_galley_cache().spec_computed()
                            == next_computed(
                            old(self).spec_inner().spec_galley_cache().spec_computed(),
                        )
                        &&& final(self).galley_entries() == old(self).galley_entries().push(
                            (
                                h,
                                CachedGalleyView {
                                    last_used: old(self).spec_generation(),
                                    galley: r@,
                                },
                            ),
                        )
                    },
                }
            }),
    {
        let color = crate::galley::Color32::temporary();
        self.layout(text, font_id, color, wrap_width_milli)
    }

    pub fn num_galleys_in_cache(&self) -> (r: usize)
        ensures
            r == self.galley_entries().len(),
    {
        self.inner.galley_cache.num_galleys_in_cache()
    }

    /// How many layout computations have run (a hit runs none).
    pub fn num_layouts_computed(&self) -> (r: u64)
        ensures
            r == self.spec_inner().spec_galley_cache().spec_computed(),
    {
        self.inner.galley_cache.num_layouts_computed()
    }

    /// How many font implementations have been constructed since the last
    /// rebuild.
    pub fn num_font_impls(&self) -> (r: usize)
        ensures
            r == self.spec_manager().impl_cache_view().len(),
    {
        self.inner.font_manager.num_font_impls()
    }

    /// Extends the fallback chains with a font discovered at runtime for a
    /// character the current chains cannot draw. Cached layout results are
    /// untouched: gaining a fallback never invalidates unrelated styles.
    pub fn add_discovered_font(
        &mut self,
        main_font_id: &FontId,
        font_name: &String,
        bytes: Vec<u8>,
    ) -> (r: Result<(), FontCacheError>)
        requires
            old(self).wf(),
            old(self).spec_manager().resolvable(main_font_id@),
        ensures
            final(self).wf(),
            final(self).galley_entries() == old(self).galley_entries(),
            final(self).spec_generation() == old(self).spec_generation(),
            final(self).spec_manager().spec_atlas() == old(self).spec_manager().spec_atlas(),
            ({
                let rec = discovered_record(old(self).spec_manager(), font_name@, bytes@);
                r is Ok <==> crate::rasterize::font_parse_ok(rec.font, rec.index)
            }),
            match r {
                Ok(()) => {
                    let m0 = old(self).spec_manager();
                    let rec = discovered_record(m0, font_name@, bytes@);
                    let scale = pixel_scale_of(
                        m0.spec_pixels_per_point_milli() as int,
                        main_font_id@.size_milli as int,
                    ) as u32;
                    let ckey = (scale, main_font_id@.family);
                    let tweaks1 = if m0.spec_definitions().spec_font_data(font_name@) is Some {
                        m0.tweaks_view()
                    } else {
                        m0.tweaks_view().push((font_name@, rec.tweak))
                    };
                    let step = impl_step(
                        resolved_impl_cache_of(m0, main_font_id@),
                        tweaks1,
                        m0.spec_pixels_per_point_milli() as int,
                        m0.spec_atlas_id(),
                        scale,
                        font_name@,
                    );
                    &&& final(self).spec_manager().fonts_view() == (if m0.spec_definitions()
                        .spec_font_data(font_name@) is Some {
                        m0.fonts_view()
                    } else {
                        m0.fonts_view().push((font_name@, rec))
                    })
                    &&& final(self).spec_manager().tweaks_view() == tweaks1
                    &&& final(self).spec_manager().impl_cache_view() == step.0
                    &&& final(self).spec_manager().spec_definitions().spec_font_data(font_name@)
                        is Some
                    &&& final(self).spec_manager().spec_type_fonts(FontTypeView::Monospace)
                        == Some(
                        (match m0.spec_type_fonts(FontTypeView::Monospace) {
                            Some(chain) => chain,
                            None => Seq::<Seq<char>>::empty(),
                        }).push(font_name@),
                    )
                    &&& final(self).spec_manager().spec_type_fonts(FontTypeView::Proportional)
                        == Some(
                        (match m0.spec_type_fonts(FontTypeView::Proportional) {
                            Some(chain) => chain,
                            None => Seq::<Seq<char>>::empty(),
                        }).push(font_name@),
                    )
                    &&& forall|fam: FontTypeView|
                        fam != FontTypeView::Monospace && fam != FontTypeView::Proportional
                            ==> final(self).spec_manager().spec_type_fonts(fam)
                            == m0.spec_type_fonts(fam)
                    &&& step.1.name == font_name@
                    &&& step.1.atlas_id == m0.spec_atlas_id()
                    &&& assoc_find(final(self).spec_manager().chains_cache_view(), ckey) == Some(
                        (ckey, resolved_chain_of(m0, main_font_id@).push(step.1)),
                    )
                    &&& forall|k2: (u32, FontTypeView)|
                        k2 != ckey ==> assoc_find(
                            final(self).spec_manager().chains_cache_view(),
                            k2,
                        ) == assoc_find(m0.chains_cache_view(), k2)
                },
                Err(e) => {
                    &&& e matches FontCacheError::InvalidFontBytes(_)
                    &&& final(self).spec_manager().spec_definitions() == old(
                        self,
                    ).spec_manager().spec_definitions()
                    &&& final(self).spec_manager().tweaks_view() == old(
                        self,
                    ).spec_manager().tweaks_view()
                    &&& old(self).spec_manager().resolve_post(
                        &final(self).spec_manager(),
                        main_font_id@,
                        resolved_chain_of(old(self).spec_manager(), main_font_id@),
                    )
                },
            },
    {
        self.inner.font_manager.add_discovered_font(main_font_id, font_name, bytes)
    }

    /// The characters of `text` that no font in the style's resolved
    /// fallback chain covers, in text order. Scanning resolves the style
    /// (exactly as [`FontPaintManager::font`] does) and changes nothing
    /// else; every returned character occurs in the text. Which characters
    /// a font covers is the rasterizer's business and is not modeled, so
    /// the selection itself is unspecified.
    pub fn missing_glyphs(&mut self, text: &str, font_id: &FontId) -> (r: Vec<char>)
        requires
            old(self).wf(),
            old(self).spec_manager().resolvable(font_id@),
        ensures
            final(self).wf(),
            final(self).galley_entries() == old(self).galley_entries(),
            final(self).spec_generation() == old(self).spec_generation(),
            old(self).spec_manager().resolve_post(
                &final(self).spec_manager(),
                font_id@,
                resolved_chain_of(old(self).spec_manager(), font_id@),
            ),
            forall|k: int| 0 <= k < r@.len() ==> text@.contains(#[trigger] r@[k]),
    {
        let chain = self.font(font_id);
        let ghost snap = *self;
        let mut missing: Vec<char> = Vec::new();
        let n = text.unicode_len();
        let mut i: usize = 0;
        while i < n
            invariant
                n == text@.len(),
                i <= n,
                *self == snap,
                snap.wf(),
                snap.galley_entries() == old(self).galley_entries(),
                snap.spec_generation() == old(self).spec_generation(),
                old(self).spec_manager().resolve_post(
                    &snap.spec_manager(),
                    font_id@,
                    resolved_chain_of(old(self).spec_manager(), font_id@),
                ),
                forall|k: int| 0 <= k < missing@.len() ==> text@.contains(#[trigger] missing@[k]),
            decreases n - i,
        {
            let c = text.get_char(i);
            if !chain.has_glyph(c) {
                missing.push(c);
                proof {
                    assert(text@[i as int] == c);
                }
            }
            i += 1;
        }
        missing
    }
}

} // verus!
