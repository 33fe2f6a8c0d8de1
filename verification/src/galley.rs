//! Layout requests, their content hash, and the layout-result cache: a
//! request hashes to a 64-bit key, the cache memoizes the shared result
//! under that key, and a per-frame flush evicts everything that was not
//! used in the frame just ended.
//!
//! The hash is FNV-1a over a length-prefixed encoding of every field of the
//! request, so it is a pure function of the request's content; collisions
//! are an accepted risk of the design, as the cache returns a colliding
//! entry's result without checking the request itself.

use std::sync::Arc;

use vstd::prelude::*;

use crate::assoc::assoc_find;
use crate::assoc::assoc_unique;
use crate::assoc::lemma_assoc_unique_filter;
use crate::font_types::FontId;
use crate::font_types::FontIdView;
use crate::font_types::FontTypeView;
use crate::manager::next_computed;
use crate::manager::resolved_chain_of;
use crate::manager::FontsManager;
use crate::shared::arc_clone;
use crate::assoc::lemma_assoc_find_skip_end;
use crate::assoc::lemma_assoc_find_skip_found;
use crate::assoc::lemma_assoc_find_skip_step;
use crate::assoc::lemma_assoc_find_update;
use crate::assoc::lemma_assoc_unique_push;
use vstd::string::StringSliceAdditionalSpecFns;
use vstd::utf8::encode_utf8;

verus! {

/// A straight-alpha color, carried through layout requests untouched.
#[derive(Clone, Copy, Debug, PartialEq, Eq, Structural)]
pub struct Color32 {
    pub r: u8,
    pub g: u8,
    pub b: u8,
    pub a: u8,
}

impl Color32 {
    /// The placeholder used when the color is chosen after layout.
    pub fn temporary() -> (c: Color32)
        ensures
            c == (Color32 { r: 64u8, g: 254u8, b: 0u8, a: 255u8 }),
    {
        Color32 { r: 64, g: 254, b: 0, a: 255 }
    }
}

/// The wrap width that disables wrapping.
pub const NO_WRAP_WIDTH_MILLI: u32 = 0xffff_ffff;

/// A text-layout request: everything that affects the produced geometry.
#[derive(Clone, Debug)]
pub struct LayoutJob {
    /// The text to lay out; lines break at newline characters.
    pub text: String,
    /// The style to lay it out in.
    pub font_id: FontId,
    /// The text color.
    pub color: Color32,
    /// Wrap width in thousandths of a point; [`NO_WRAP_WIDTH_MILLI`] never
    /// wraps.
    pub wrap_width_milli: u32,
}

/// The mathematical value of a [`LayoutJob`].
#[verifier::ext_equal]
pub struct LayoutJobView {
    pub text: Seq<char>,
    pub font_id: FontIdView,
    pub color: Color32,
    pub wrap_width_milli: u32,
}

impl View for LayoutJob {
    type V = LayoutJobView;

    open spec fn view(&self) -> LayoutJobView {
        LayoutJobView {
            text: self.text@,
            font_id: self.font_id@,
            color: self.color,
            wrap_width_milli: self.wrap_width_milli,
        }
    }
}

impl LayoutJob {
    /// A request for `text` in one style, wrapped at `wrap_width_milli`.
    pub fn simple(text: String, font_id: FontId, color: Color32, wrap_width_milli: u32) -> (r:
        LayoutJob)
        ensures
            r@ == (LayoutJobView { text: text@, font_id: font_id@, color, wrap_width_milli }),
    {
        LayoutJob { text, font_id, color, wrap_width_milli }
    }

    /// A copy whose mathematical value is exactly this one's.
    pub fn duplicate(&self) -> (r: LayoutJob)
        ensures
            r@ == self@,
    {
        LayoutJob {
            text: self.text.clone(),
            font_id: self.font_id.duplicate(),
            color: self.color,
            wrap_width_milli: self.wrap_width_milli,
        }
    }
}

/// A fully laid-out text: the shaped result handed back to callers by
/// shared ownership. Its geometry references glyph regions in the atlas
/// named by `atlas_id`, so it must never outlive that atlas.
pub struct Galley {
    /// The request this galley answers.
    pub job: LayoutJob,
    /// The identity of the atlas its glyph regions live in.
    pub atlas_id: u64,
    /// How many fonts the resolved fallback chain offered.
    pub glyph_fonts: usize,
}

/// The mathematical value of a [`Galley`].
#[verifier::ext_equal]
pub struct GalleyView {
    pub job: LayoutJobView,
    pub atlas_id: u64,
    pub glyph_fonts: usize,
}

impl View for Galley {
    type V = GalleyView;

    open spec fn view(&self) -> GalleyView {
        GalleyView { job: self.job@, atlas_id: self.atlas_id, glyph_fonts: self.glyph_fonts }
    }
}

/// The little-endian bytes of a 32-bit value.
pub open spec fn le32(x: u32) -> Seq<u8> {
    seq![
        (x & 0xff) as u8,
        ((x >> 8) & 0xff) as u8,
        ((x >> 16) & 0xff) as u8,
        ((x >> 24) & 0xff) as u8,
    ]
}

/// The little-endian bytes of a 64-bit value.
pub open spec fn le64(x: u64) -> Seq<u8> {
    seq![
        (x & 0xff) as u8,
        ((x >> 8) & 0xff) as u8,
        ((x >> 16) & 0xff) as u8,
        ((x >> 24) & 0xff) as u8,
        ((x >> 32) & 0xff) as u8,
        ((x >> 40) & 0xff) as u8,
        ((x >> 48) & 0xff) as u8,
        ((x >> 56) & 0xff) as u8,
    ]
}

/// The encoding of a family key: a tag byte, and for named families the
/// length-prefixed name.
pub open spec fn family_bytes(f: FontTypeView) -> Seq<u8> {
    match f {
        FontTypeView::Proportional => seq![0u8],
        FontTypeView::Monospace => seq![1u8],
        FontTypeView::Name(s) => seq![2u8] + le64((encode_utf8(s).len() as usize) as u64) + encode_utf8(s),
    }
}

/// The content encoding of a layout request: every field, length-prefixed
/// where variable-sized, so different requests encode differently.
pub open spec fn job_bytes(j: LayoutJobView) -> Seq<u8> {
    le32(j.font_id.size_milli) + family_bytes(j.font_id.family) + seq![
        j.color.r,
        j.color.g,
        j.color.b,
        j.color.a,
    ] + le32(j.wrap_width_milli) + le64((encode_utf8(j.text).len() as usize) as u64) + encode_utf8(j.text)
}

/// The FNV-1a offset basis.
pub open spec fn fnv_offset() -> u64 {
    0xcbf29ce484222325u64
}

/// The FNV-1a prime.
pub open spec fn fnv_prime() -> u64 {
    0x100000001b3u64
}

/// One FNV-1a step.
pub open spec fn fnv_step(h: u64, b: u8) -> u64 {
    vstd::wrapping::u64_specs::wrapping_mul(h ^ (b as u64), fnv_prime())
}

/// FNV-1a folded over `bytes`, starting from `h`.
pub open spec fn fnv_from(h: u64, bytes: Seq<u8>) -> u64
    decreases bytes.len(),
{
    if bytes.len() == 0 {
        h
    } else {
        fnv_from(fnv_step(h, bytes[0]), bytes.drop_first())
    }
}

/// The content hash of a layout request.
pub open spec fn job_hash_of(j: LayoutJobView) -> u64 {
    fnv_from(fnv_offset(), job_bytes(j))
}

/// Appends the little-endian bytes of `x`.
fn push_le32(out: &mut Vec<u8>, x: u32)
    ensures
        final(out)@ == old(out)@ + le32(x),
{
    out.push((x & 0xff) as u8);
    out.push(((x >> 8) & 0xff) as u8);
    out.push(((x >> 16) & 0xff) as u8);
    out.push(((x >> 24) & 0xff) as u8);
    proof {
        assert(out@ =~= old(out)@ + le32(x));
    }
}

/// Appends the little-endian bytes of `x`.
fn push_le64(out: &mut Vec<u8>, x: u64)
    ensures
        final(out)@ == old(out)@ + le64(x),
{
    out.push((x & 0xff) as u8);
    out.push(((x >> 8) & 0xff) as u8);
    out.push(((x >> 16) & 0xff) as u8);
    out.push(((x >> 24) & 0xff) as u8);
    out.push(((x >> 32) & 0xff) as u8);
    out.push(((x >> 40) & 0xff) as u8);
    out.push(((x >> 48) & 0xff) as u8);
    out.push(((x >> 56) & 0xff) as u8);
    proof {
        assert(out@ =~= old(out)@ + le64(x));
    }
}

/// Appends the UTF-8 bytes of `s`.
fn push_text(out: &mut Vec<u8>, s: &str)
    ensures
        final(out)@ == old(out)@ + encode_utf8(s@),
{
    let bytes = s.as_bytes();
    let n = bytes.len();
    let mut k: usize = 0;
    while k < n
        invariant
            n == bytes@.len(),
            k <= n,
            bytes@ == s.spec_bytes(),
            out@ == old(out)@ + bytes@.take(k as int),
        decreases n - k,
    {
        out.push(bytes[k]);
        proof {
            assert(out@ =~= old(out)@ + bytes@.take(k + 1));
        }
        k += 1;
    }
    proof {
        assert(bytes@.take(n as int) =~= bytes@);
    }
}

/// The content hash of a layout request, as the cache computes it.
pub fn hash_job(job: &LayoutJob) -> (h: u64)
    ensures
        h == job_hash_of(job@),
{
    let mut bytes: Vec<u8> = Vec::new();
    push_le32(&mut bytes, job.font_id.size_milli);
    let ghost before_family = bytes@;
    match &job.font_id.font_type {
        crate::font_types::FontType::Proportional => {
            bytes.push(0u8);
            proof {
                assert(bytes@ =~= before_family + family_bytes(job@.font_id.family));
            }
        },
        crate::font_types::FontType::Monospace => {
            bytes.push(1u8);
            proof {
                assert(bytes@ =~= before_family + family_bytes(job@.font_id.family));
            }
        },
        crate::font_types::FontType::Name(s) => {
            bytes.push(2u8);
            push_le64(&mut bytes, s.as_str().len() as u64);
            push_text(&mut bytes, s.as_str());
            proof {
                assert(bytes@ =~= before_family + family_bytes(job@.font_id.family));
            }
        },
    }
    let ghost after_family = bytes@;
    bytes.push(job.color.r);
    bytes.push(job.color.g);
    bytes.push(job.color.b);
    bytes.push(job.color.a);
    push_le32(&mut bytes, job.wrap_width_milli);
    push_le64(&mut bytes, job.text.as_str().len() as u64);
    push_text(&mut bytes, job.text.as_str());
    proof {
        assert(bytes@ =~= job_bytes(job@));
    }
    fnv_hash(&bytes)
}

/// FNV-1a over a byte vector.
fn fnv_hash(bytes: &Vec<u8>) -> (h: u64)
    ensures
        h == fnv_from(fnv_offset(), bytes@),
{
    let mut h: u64 = 0xcbf29ce484222325;
    let n = bytes.len();
    let mut i: usize = 0;
    proof {
        assert(bytes@.skip(0) =~= bytes@);
    }
    while i < n
        invariant
            n == bytes@.len(),
            i <= n,
            fnv_from(h, bytes@.skip(i as int)) == fnv_from(fnv_offset(), bytes@),
        decreases n - i,
    {
        let b = bytes[i];
        proof {
            assert(bytes@.skip(i as int)[0] == b);
            assert(bytes@.skip(i as int).drop_first() =~= bytes@.skip(i + 1));
        }
        h = (h ^ (b as u64)).wrapping_mul(0x100000001b3);
        i += 1;
    }
    proof {
        assert(bytes@.skip(n as int) =~= Seq::<u8>::empty());
    }
    h
}

/// A memoized layout result, stamped with the generation it was last used
/// in.
pub struct CachedGalley {
    /// The cache generation this entry was last returned in.
    pub last_used: u32,
    /// The shared result.
    pub galley: Arc<Galley>,
}

/// The mathematical value of a [`CachedGalley`].
#[verifier::ext_equal]
pub struct CachedGalleyView {
    pub last_used: u32,
    pub galley: GalleyView,
}

impl View for CachedGalley {
    type V = CachedGalleyView;

    open spec fn view(&self) -> CachedGalleyView {
        CachedGalleyView { last_used: self.last_used, galley: self.galley@ }
    }
}

/// The layout-result cache: request hash to memoized result, plus the frame
/// generation counter that drives one-frame-recency eviction.
pub struct GalleyCache {
    pub(crate) generation: u32,
    pub(crate) entries: Vec<(u64, CachedGalley)>,
    pub(crate) computed: u64,
}

/// The entry that survives a flush at generation `g`.
pub open spec fn used_in(g: u32) -> spec_fn((u64, CachedGalleyView)) -> bool {
    |e: (u64, CachedGalleyView)| e.1.last_used == g
}

/// A 32-bit increment that wraps to zero instead of overflowing.
pub open spec fn next_generation(g: u32) -> u32 {
    if g == u32::MAX {
        0
    } else {
        (g + 1) as u32
    }
}

impl GalleyCache {
    /// The current frame generation.
    pub closed spec fn spec_generation(&self) -> u32 {
        self.generation
    }

    /// The cached entries, keyed by request hash.
    pub closed spec fn entries_view(&self) -> Seq<(u64, CachedGalleyView)> {
        self.entries@.map_values(|p: (u64, CachedGalley)| (p.0, p.1@))
    }

    /// How many layout computations this cache has performed (wrapping).
    pub closed spec fn spec_computed(&self) -> u64 {
        self.computed
    }

    /// The entry under hash `h`, if any.
    pub open spec fn spec_lookup(&self, h: u64) -> Option<CachedGalleyView> {
        match assoc_find(self.entries_view(), h) {
            Some(e) => Some(e.1),
            None => None,
        }
    }

    pub open spec fn wf(&self) -> bool {
        assoc_unique(self.entries_view())
    }

    /// An empty cache at generation zero.
    pub fn new() -> (r: Self)
        ensures
            r.wf(),
            r.spec_generation() == 0,
            r.entries_view() == Seq::<(u64, CachedGalleyView)>::empty(),
            r.spec_computed() == 0,
    {
        let r = GalleyCache { generation: 0, entries: Vec::new(), computed: 0 };
        proof {
            assert(r.entries_view() =~= Seq::<(u64, CachedGalleyView)>::empty());
        }
        r
    }

    pub fn num_galleys_in_cache(&self) -> (r: usize)
        ensures
            r == self.entries_view().len(),
    {
        self.entries.len()
    }

    pub fn generation(&self) -> (r: u32)
        ensures
            r == self.spec_generation(),
    {
        self.generation
    }

    pub fn num_layouts_computed(&self) -> (r: u64)
        ensures
            r == self.spec_computed(),
    {
        self.computed
    }

    /// The per-frame eviction: keeps exactly the entries used in the
    /// generation now ending, then advances the generation, wrapping
    /// instead of overflowing. An entry survives into the next frame only
    /// if it was used at least once this frame.
    pub fn flush_cache(&mut self)
        requires
            old(self).wf(),
        ensures
            final(self).wf(),
            final(self).entries_view() == old(self).entries_view().filter(
                used_in(old(self).spec_generation()),
            ),
            final(self).spec_generation() == next_generation(old(self).spec_generation()),
            final(self).spec_computed() == old(self).spec_computed(),
    {
        let ghost entries0 = old(self).entries_view();
        let ghost pred = used_in(old(self).spec_generation());
        let current_generation = self.generation;
        let mut kept: Vec<(u64, CachedGalley)> = Vec::new();
        let n = self.entries.len();
        let mut i: usize = 0;
        proof {
            assert(entries0.take(0).filter(pred) =~= Seq::<(u64, CachedGalleyView)>::empty())
                by {
                reveal(Seq::filter);
            }
            assert(kept@.map_values(|p: (u64, CachedGalley)| (p.0, p.1@)) =~~= entries0.take(
                0,
            ).filter(pred));
        }
        while i < n
            invariant
                n == self.entries.len(),
                *self == *old(self),
                i <= n,
                entries0 == self.entries_view(),
                current_generation == old(self).spec_generation(),
                pred == used_in(old(self).spec_generation()),
                kept@.map_values(|p: (u64, CachedGalley)| (p.0, p.1@)) =~~= entries0.take(
                    i as int,
                ).filter(pred),
            decreases n - i,
        {
            let ghost prefix = entries0.take(i as int);
            let ghost next_prefix = entries0.take(i + 1);
            proof {
                assert(next_prefix.drop_last() =~= prefix);
                assert(next_prefix.last() == entries0[i as int]);
                reveal(Seq::filter);
            }
            let entry = &self.entries[i];
            if entry.1.last_used == current_generation {
                kept.push((entry.0, CachedGalley {
                    last_used: entry.1.last_used,
                    galley: arc_clone(&entry.1.galley),
                }));
            }
            proof {
                assert(kept@.map_values(|p: (u64, CachedGalley)| (p.0, p.1@)) =~~= next_prefix
                    .filter(pred));
            }
            i += 1;
        }
        proof {
            assert(entries0.take(n as int) =~= entries0);
        }
        self.entries = kept;
        self.generation = if self.generation == u32::MAX {
            0
        } else {
            self.generation + 1
        };
        proof {
            assert(self.entries_view() =~~= entries0.filter(pred));
            lemma_assoc_unique_filter(entries0, pred);
        }
    }
}

impl GalleyCache {
    /// The memoized layout of `job`: on a hash hit the cached shared result
    /// is returned and restamped to the current generation, with no new
    /// computation; on a miss the style is resolved through `fonts`, the
    /// result is computed, memoized under the current generation, and
    /// returned.
    pub fn layout(&mut self, fonts: &mut FontsManager, job: LayoutJob) -> (r: Arc<Galley>)
        requires
            old(self).wf(),
            old(fonts).wf(),
            old(fonts).resolvable(job.font_id@),
        ensures
            final(self).wf(),
            final(fonts).wf(),
            final(self).spec_generation() == old(self).spec_generation(),
            ({
                let h = job_hash_of(job@);
                match assoc_find(old(self).entries_view(), h) {
                    Some(e) => {
                        &&& r@ == e.1.galley
                        &&& *final(fonts) == *old(fonts)
                        &&& final(self).spec_computed() == old(self).spec_computed()
                        &&& final(self).entries_view() == crate::laws::stamp(
                            old(self).entries_view(),
                            h,
                            old(self).spec_generation(),
                        )
                        &&& final(self).entries_view().len() == old(self).entries_view().len()
                        &&& assoc_find(final(self).entries_view(), h) == Some(
                            (
                                h,
                                CachedGalleyView {
                                    last_used: old(self).spec_generation(),
                                    galley: e.1.galley,
                                },
                            ),
                        )
                        &&& forall|k2: u64|
                            k2 != h ==> assoc_find(final(self).entries_view(), k2) == assoc_find(
                                old(self).entries_view(),
                                k2,
                            )
                        &&& forall|t: int|
                            0 <= t < old(self).entries_view().len() ==> (
                            #[trigger] final(self).entries_view()[t]).0 == old(
                                self,
                            ).entries_view()[t].0 && final(self).entries_view()[t].1.galley == old(
                                self,
                            ).entries_view()[t].1.galley
                    },
                    None => {
                        &&& old(fonts).resolve_post(
                            &*final(fonts),
                            job.font_id@,
                            resolved_chain_of(*old(fonts), job.font_id@),
                        )
                        &&& r@.job == job@
                        &&& r@.atlas_id == old(fonts).spec_atlas_id()
                        &&& r@.glyph_fonts == resolved_chain_of(*old(fonts), job.font_id@).len()
                        &&& final(self).spec_computed() == next_computed(old(self).spec_computed())
                        &&& final(self).entries_view() == old(self).entries_view().push(
                            (
                                h,
                                CachedGalleyView {
                                    last_used: old(self).spec_generation(),
                                    galley: r@,
                                },
                            ),
                        )
                    },
                }
            }),
    {
        let ghost jobv = job@;
        let hash = hash_job(&job);
        let ghost h = job_hash_of(jobv);
        let ghost entries0 = old(self).entries_view();
        proof {
            assert(entries0.skip(0) =~= entries0);
        }
        let n = self.entries.len();
        let mut i: usize = 0;
        while i < n
            invariant
                n == self.entries.len(),
                i <= n,
                *self == *old(self),
                *fonts == *old(fonts),
                old(self).wf(),
                old(fonts).wf(),
                hash == h,
                h == job_hash_of(jobv),
                jobv == job@,
                entries0 == self.entries_view(),
                assoc_find(entries0.skip(i as int), h) == assoc_find(entries0, h),
                forall|t: int| 0 <= t < i ==> entries0[t].0 != h,
            decreases n - i,
        {
            proof {
                assert(self.entries_view()[i as int] == (
                    self.entries@[i as int].0,
                    self.entries@[i as int].1@,
                ));
            }
            if self.entries[i].0 == hash {
                proof {
                    lemma_assoc_find_skip_found(entries0, i as int, h);
                }
                let g = self.generation;
                let entry = &mut self.entries[i];
                entry.1.last_used = g;
                let result = arc_clone(&self.entries[i].1.galley);
                proof {
                    let stamped = CachedGalleyView {
                        last_used: old(self).spec_generation(),
                        galley: entries0[i as int].1.galley,
                    };
                    assert(self.entries_view() =~~= entries0.update(i as int, (h, stamped)));
                    lemma_assoc_find_update(entries0, i as int, stamped, h);
                    assert(self.entries_view() =~~= crate::laws::stamp(
                        entries0,
                        h,
                        old(self).spec_generation(),
                    )) by {
                        assert forall|j: int|
                            0 <= j < entries0.len() && j != i implies entries0[j].0 != h by {
                            assert(entries0[i as int].0 == h);
                        }
                    }
                    assert forall|a: int, b: int|
                        0 <= a < b < self.entries_view().len() implies self.entries_view()[a].0
                        != self.entries_view()[b].0 by {
                        assert(self.entries_view()[a].0 == entries0[a].0);
                        assert(self.entries_view()[b].0 == entries0[b].0);
                    }
                }
                return result;
            }
            proof {
                lemma_assoc_find_skip_step(entries0, i as int, h);
            }
            i += 1;
        }
        proof {
            lemma_assoc_find_skip_end(entries0, h);
        }
        let chain = fonts.font(&job.font_id);
        let atlas_id = fonts.texture_atlas().id();
        let glyph_fonts = chain.fonts.len();
        let galley = Arc::new(Galley { job, atlas_id, glyph_fonts });
        let g = self.generation;
        self.computed = if self.computed == u64::MAX {
            0
        } else {
            self.computed + 1
        };
        self.entries.push((hash, CachedGalley { last_used: g, galley: arc_clone(&galley) }));
        proof {
            let entry_v = CachedGalleyView {
                last_used: old(self).spec_generation(),
                galley: galley@,
            };
            assert(self.entries_view() =~~= entries0.push((h, entry_v)));
            lemma_assoc_unique_push(entries0, (h, entry_v));
        }
        galley
    }
}

} // verus!
