//! The laws the caching layer obeys, stated over the same mathematical
//! values the public contracts use and proved from them.

use vstd::prelude::*;

use crate::assoc::assoc_find;
use crate::assoc::assoc_unique;
use crate::assoc::lemma_assoc_find_filter;
use crate::assoc::lemma_assoc_find_push;
use crate::assoc::lemma_assoc_unique_filter;
use crate::galley::next_generation;
use crate::galley::used_in;
use crate::galley::CachedGalleyView;
use crate::galley::GalleyView;
use crate::impl_cache::FontImplView;
use crate::manager::spec_needs_rebuild;
use crate::manager::FontsManager;
use crate::font_types::FontIdView;

verus! {

/// A device pixel ratio that moved by more than a thousandth forces the
/// per-frame step to discard and rebuild every cached layout result and
/// font implementation: the rebuild trigger fires whatever the other
/// conditions say, and [`crate::manager::FontPaintManager::begin_frame`]
/// then guarantees empty caches under a fresh atlas.
pub proof fn lemma_ratio_change_forces_rebuild(
    m: FontsManager,
    new_ppp_milli: u32,
    max_texture_side: usize,
)
    requires
        (if m.spec_pixels_per_point_milli() >= new_ppp_milli {
            m.spec_pixels_per_point_milli() - new_ppp_milli
        } else {
            new_ppp_milli - m.spec_pixels_per_point_milli()
        }) > 1,
    ensures
        spec_needs_rebuild(m, new_ppp_milli, max_texture_side),
{
}

/// An atlas fill ratio past eight tenths forces the per-frame step to
/// discard and rebuild, even when the pixel ratio and the texture size
/// limit are unchanged.
pub proof fn lemma_full_atlas_forces_rebuild(m: FontsManager, max_texture_side: usize)
    requires
        m.spec_atlas().spec_fill_permille() > 800,
    ensures
        spec_needs_rebuild(m, m.spec_pixels_per_point_milli(), max_texture_side),
{
}

/// What one layout call does to the cached entries and the computation
/// counter, exactly as [`crate::galley::GalleyCache::layout`] ensures it:
/// a hit restamps and returns the cached result; a miss memoizes `fresh`.
pub open spec fn layout_effect(
    entries: Seq<(u64, CachedGalleyView)>,
    generation: u32,
    computed: u64,
    h: u64,
    fresh: GalleyView,
) -> (Seq<(u64, CachedGalleyView)>, u64, GalleyView) {
    match assoc_find(entries, h) {
        Some(e) => (
            stamp(entries, h, generation),
            computed,
            e.1.galley,
        ),
        None => (
            entries.push((h, CachedGalleyView { last_used: generation, galley: fresh })),
            crate::manager::next_computed(computed),
            fresh,
        ),
    }
}

/// Restamps every entry under `h` (with unique keys: the one entry) to the
/// given generation, leaving its result untouched.
pub open spec fn stamp(
    entries: Seq<(u64, CachedGalleyView)>,
    h: u64,
    generation: u32,
) -> Seq<(u64, CachedGalleyView)> {
    entries.map_values(
        |e: (u64, CachedGalleyView)|
            if e.0 == h {
                (e.0, CachedGalleyView { last_used: generation, galley: e.1.galley })
            } else {
                e
            },
    )
}

/// After any layout of a request, its hash maps to the returned result,
/// stamped with the current generation.
pub proof fn lemma_layout_caches_result(
    entries: Seq<(u64, CachedGalleyView)>,
    generation: u32,
    computed: u64,
    h: u64,
    fresh: GalleyView,
)
    requires
        assoc_unique(entries),
    ensures
        ({
            let (entries1, _, r1) = layout_effect(entries, generation, computed, h, fresh);
            &&& assoc_find(entries1, h) == Some(
                (h, CachedGalleyView { last_used: generation, galley: r1 }),
            )
            &&& assoc_unique(entries1)
        }),
{
    match assoc_find(entries, h) {
        Some(e) => {
            crate::assoc::lemma_assoc_find_some(entries, h);
            lemma_stamp_find(entries, h, generation);
            lemma_stamp_unique(entries, h, generation);
        },
        None => {
            let entry = (h, CachedGalleyView { last_used: generation, galley: fresh });
            lemma_assoc_find_push(entries, entry, h);
            crate::assoc::lemma_assoc_unique_push(entries, entry);
        },
    }
}

/// Laying the same request out twice in one frame returns the same shared
/// result both times, and the second call performs no layout computation:
/// the counter does not move.
pub proof fn lemma_same_frame_layout_is_memoized(
    entries: Seq<(u64, CachedGalleyView)>,
    generation: u32,
    computed: u64,
    h: u64,
    fresh1: GalleyView,
    fresh2: GalleyView,
)
    requires
        assoc_unique(entries),
    ensures
        ({
            let (entries1, computed1, r1) = layout_effect(entries, generation, computed, h, fresh1);
            let (entries2, computed2, r2) = layout_effect(
                entries1,
                generation,
                computed1,
                h,
                fresh2,
            );
            &&& r2 == r1
            &&& computed2 == computed1
        }),
{
    lemma_layout_caches_result(entries, generation, computed, h, fresh1);
}

/// Restamping one key finds the restamped entry under it and changes no
/// other lookup.
pub proof fn lemma_stamp_find(entries: Seq<(u64, CachedGalleyView)>, h: u64, generation: u32)
    requires
        assoc_find(entries, h) is Some,
    ensures
        assoc_find(stamp(entries, h, generation), h) == Some(
            (
                h,
                CachedGalleyView {
                    last_used: generation,
                    galley: assoc_find(entries, h)->Some_0.1.galley,
                },
            ),
        ),
        forall|k2: u64|
            k2 != h ==> assoc_find(stamp(entries, h, generation), k2) == assoc_find(entries, k2),
    decreases entries.len(),
{
    let t = stamp(entries, h, generation);
    assert(t.len() == entries.len());
    if entries.len() > 0 {
        assert(t[0] == (if entries[0].0 == h {
            (
                entries[0].0,
                CachedGalleyView { last_used: generation, galley: entries[0].1.galley },
            )
        } else {
            entries[0]
        }));
        assert(t.drop_first() =~= stamp(entries.drop_first(), h, generation));
        if entries[0].0 != h {
            lemma_stamp_find(entries.drop_first(), h, generation);
            assert forall|k2: u64|
                k2 != h implies assoc_find(t, k2) == assoc_find(entries, k2) by {
                if entries[0].0 != k2 {
                    assert(assoc_find(t, k2) == assoc_find(t.drop_first(), k2));
                    assert(assoc_find(entries, k2) == assoc_find(entries.drop_first(), k2));
                }
            }
        } else {
            assert forall|k2: u64|
                k2 != h implies assoc_find(t, k2) == assoc_find(entries, k2) by {
                lemma_stamp_same_keys(entries.drop_first(), h, generation);
                crate::assoc::lemma_assoc_find_same_keys(
                    entries.drop_first(),
                    stamp(entries.drop_first(), h, generation),
                    k2,
                );
                lemma_stamp_find_other(entries.drop_first(), h, generation, k2);
            }
        }
    }
}

/// Restamping preserves the keys, position by position.
proof fn lemma_stamp_same_keys(entries: Seq<(u64, CachedGalleyView)>, h: u64, generation: u32)
    ensures
        stamp(entries, h, generation).len() == entries.len(),
        forall|i: int|
            0 <= i < entries.len() ==> (#[trigger] stamp(entries, h, generation)[i]).0
                == entries[i].0,
{
}

/// Restamping `h` leaves lookups of other keys unchanged.
proof fn lemma_stamp_find_other(
    entries: Seq<(u64, CachedGalleyView)>,
    h: u64,
    generation: u32,
    k2: u64,
)
    requires
        k2 != h,
    ensures
        assoc_find(stamp(entries, h, generation), k2) == assoc_find(entries, k2),
    decreases entries.len(),
{
    let t = stamp(entries, h, generation);
    if entries.len() > 0 {
        assert(t[0] == (if entries[0].0 == h {
            (
                entries[0].0,
                CachedGalleyView { last_used: generation, galley: entries[0].1.galley },
            )
        } else {
            entries[0]
        }));
        assert(t.drop_first() =~= stamp(entries.drop_first(), h, generation));
        lemma_stamp_find_other(entries.drop_first(), h, generation, k2);
    }
}

/// Restamping keeps keys unique.
pub proof fn lemma_stamp_unique(entries: Seq<(u64, CachedGalleyView)>, h: u64, generation: u32)
    requires
        assoc_unique(entries),
    ensures
        assoc_unique(stamp(entries, h, generation)),
{
    lemma_stamp_same_keys(entries, h, generation);
}

/// One-frame recency, the eviction half: an entry not used in the frame
/// now ending is gone after the per-frame flush.
pub proof fn lemma_unused_entry_is_evicted(
    entries: Seq<(u64, CachedGalleyView)>,
    generation: u32,
    h: u64,
)
    requires
        assoc_unique(entries),
        match assoc_find(entries, h) {
            Some(e) => e.1.last_used != generation,
            None => true,
        },
    ensures
        assoc_find(entries.filter(used_in(generation)), h) is None,
{
    lemma_assoc_find_filter(entries, used_in(generation), h);
    if assoc_find(entries, h) is Some {
        crate::assoc::lemma_assoc_find_some(entries, h);
    }
}

/// One-frame recency, the retention half: an entry used in the frame now
/// ending survives the per-frame flush with its result untouched.
pub proof fn lemma_used_entry_survives(
    entries: Seq<(u64, CachedGalleyView)>,
    generation: u32,
    h: u64,
)
    requires
        assoc_unique(entries),
        assoc_find(entries, h) matches Some(e) && e.1.last_used == generation,
    ensures
        assoc_find(entries.filter(used_in(generation)), h) == assoc_find(entries, h),
{
    lemma_assoc_find_filter(entries, used_in(generation), h);
    crate::assoc::lemma_assoc_find_some(entries, h);
}

/// A frame in the steady state, as the contracts describe it: the request
/// under `h` is laid out once (restamping its entry), then the per-frame
/// flush runs.
pub open spec fn frame_round(
    entries: Seq<(u64, CachedGalleyView)>,
    generation: u32,
    h: u64,
) -> (Seq<(u64, CachedGalleyView)>, u32) {
    (
        stamp(entries, h, generation).filter(used_in(generation)),
        next_generation(generation),
    )
}

/// Running `k` further frames that each use the request under `h`.
pub open spec fn run_frames(
    entries: Seq<(u64, CachedGalleyView)>,
    generation: u32,
    h: u64,
    k: nat,
) -> (Seq<(u64, CachedGalleyView)>, u32)
    decreases k,
{
    if k == 0 {
        (entries, generation)
    } else {
        let (entries1, generation1) = frame_round(entries, generation, h);
        run_frames(entries1, generation1, h, (k - 1) as nat)
    }
}

/// A request used in every frame survives unevicted through all of them,
/// with the same shared result, however many frames pass and wherever the
/// generation counter wraps: eviction compares generations for equality
/// only, so the wrap at the numeric limit changes nothing.
pub proof fn lemma_entry_used_every_frame_survives(
    entries: Seq<(u64, CachedGalleyView)>,
    generation: u32,
    h: u64,
    k: nat,
    galley: GalleyView,
)
    requires
        assoc_unique(entries),
        assoc_find(entries, h) matches Some(e) && e.1.galley == galley,
    ensures
        ({
            let (entries_k, _) = run_frames(entries, generation, h, k);
            &&& assoc_unique(entries_k)
            &&& assoc_find(entries_k, h) matches Some(e2) && e2.1.galley == galley
        }),
    decreases k,
{
    if k > 0 {
        let (entries1, generation1) = frame_round(entries, generation, h);
        lemma_stamp_find(entries, h, generation);
        lemma_stamp_unique(entries, h, generation);
        lemma_used_entry_survives(stamp(entries, h, generation), generation, h);
        lemma_assoc_unique_filter(stamp(entries, h, generation), used_in(generation));
        lemma_entry_used_every_frame_survives(entries1, generation1, h, (k - 1) as nat, galley);
    }
}

/// The per-frame step never panics at the generation counter's numeric
/// limit: the counter wraps to zero and the eviction rule is unchanged.
/// Instantiates the two recency laws at the wrap boundary.
pub proof fn lemma_eviction_correct_at_wrap(entries: Seq<(u64, CachedGalleyView)>, h: u64)
    requires
        assoc_unique(entries),
    ensures
        next_generation(u32::MAX) == 0,
        (match assoc_find(entries, h) {
            Some(e) => e.1.last_used != u32::MAX,
            None => true,
        }) ==> assoc_find(entries.filter(used_in(u32::MAX)), h) is None,
        (assoc_find(entries, h) matches Some(e) && e.1.last_used == u32::MAX) ==> assoc_find(
            entries.filter(used_in(u32::MAX)),
            h,
        ) == assoc_find(entries, h),
{
    if match assoc_find(entries, h) {
        Some(e) => e.1.last_used != u32::MAX,
        None => true,
    } {
        lemma_unused_entry_is_evicted(entries, u32::MAX, h);
    } else {
        lemma_used_entry_survives(entries, u32::MAX, h);
    }
}

/// Resolving the same style twice yields the same fallback chain and
/// leaves every cache exactly as the first resolution left it: the second
/// call constructs nothing. The pixel-scale key is a deterministic
/// function of the unchanged display parameters, so the second resolution
/// is a chain-cache hit.
pub proof fn lemma_resolve_twice_hits_cache(
    m0: FontsManager,
    m1: FontsManager,
    m2: FontsManager,
    fid: FontIdView,
    chain1: Seq<FontImplView>,
    chain2: Seq<FontImplView>,
)
    requires
        m0.resolve_post(&m1, fid, chain1),
        m1.resolve_post(&m2, fid, chain2),
    ensures
        chain2 == chain1,
        m2.impl_cache_view() == m1.impl_cache_view(),
        m2.chains_cache_view() == m1.chains_cache_view(),
{
    let scale = crate::scale::pixel_scale_of(
        m0.spec_pixels_per_point_milli() as int,
        fid.size_milli as int,
    ) as u32;
    let ckey = (scale, fid.family);
    match assoc_find(m0.chains_cache_view(), ckey) {
        Some(e) => {
            crate::assoc::lemma_assoc_find_some(m0.chains_cache_view(), ckey);
        },
        None => {
            lemma_assoc_find_push(m0.chains_cache_view(), (ckey, chain1), ckey);
        },
    }
    assert(assoc_find(m1.chains_cache_view(), ckey) == Some((ckey, chain1)));
}

} // verus!
