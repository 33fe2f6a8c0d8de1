//! A verified model of the shared glyph atlas: a fixed-capacity bitmap whose
//! space is claimed incrementally as glyphs are rasterized, reporting its
//! fill ratio and handing out at most one incremental update per change.
//! Each atlas carries an identity, so cached geometry can be tied to the
//! atlas instance it references.

use vstd::prelude::*;

verus! {

/// The largest accepted side length of an atlas.
pub const MAX_ATLAS_SIDE: usize = 0x10000;

/// An incremental update: the range of newly claimed pixels since the last
/// drain.
#[derive(Clone, Copy, Debug, PartialEq, Eq, Structural)]
pub struct ImageDelta {
    /// Pixels claimed before this update.
    pub from_px: u64,
    /// Pixels claimed now.
    pub to_px: u64,
}

/// The shared glyph atlas.
pub struct TextureAtlas {
    id: u64,
    width: usize,
    height: usize,
    allocated_px: u64,
    taken_px: u64,
}

impl TextureAtlas {
    /// The identity of this atlas instance.
    pub closed spec fn spec_id(&self) -> u64 {
        self.id
    }

    pub closed spec fn spec_width(&self) -> usize {
        self.width
    }

    pub closed spec fn spec_height(&self) -> usize {
        self.height
    }

    /// Total pixels the atlas can hold.
    pub open spec fn spec_capacity(&self) -> int {
        self.spec_width() * self.spec_height()
    }

    /// Pixels claimed so far by rasterized glyphs.
    pub closed spec fn spec_allocated(&self) -> u64 {
        self.allocated_px
    }

    /// Pixels already handed out through [`TextureAtlas::take_delta`].
    pub closed spec fn spec_taken(&self) -> u64 {
        self.taken_px
    }

    pub open spec fn wf(&self) -> bool {
        &&& self.spec_width() <= MAX_ATLAS_SIDE
        &&& self.spec_height() <= MAX_ATLAS_SIDE
        &&& self.spec_taken() <= self.spec_allocated()
        &&& self.spec_allocated() <= self.spec_capacity()
    }

    /// The fill ratio in thousandths, rounded down.
    pub open spec fn spec_fill_permille(&self) -> int {
        if self.spec_capacity() == 0 {
            0
        } else {
            1000 * self.spec_allocated() / self.spec_capacity()
        }
    }

    /// A fresh, empty atlas.
    pub fn new(width: usize, height: usize, id: u64) -> (r: Self)
        requires
            width <= MAX_ATLAS_SIDE,
            height <= MAX_ATLAS_SIDE,
        ensures
            r.wf(),
            r.spec_id() == id,
            r.spec_width() == width,
            r.spec_height() == height,
            r.spec_allocated() == 0,
            r.spec_taken() == 0,
    {
        proof {
            assert((width as int) * (height as int) >= 0) by (nonlinear_arith);
        }
        TextureAtlas { id, width, height, allocated_px: 0, taken_px: 0 }
    }

    pub fn id(&self) -> (r: u64)
        ensures
            r == self.spec_id(),
    {
        self.id
    }

    /// Current size of the atlas bitmap.
    pub fn size(&self) -> (r: [usize; 2])
        ensures
            r[0] == self.spec_width(),
            r[1] == self.spec_height(),
    {
        [self.width, self.height]
    }

    /// How full the atlas is, in thousandths.
    pub fn fill_ratio_permille(&self) -> (r: u32)
        requires
            self.wf(),
        ensures
            r == self.spec_fill_permille(),
    {
        proof {
            assert((self.width as int) * (self.height as int) <= 0x10000int * 0x10000int)
                by (nonlinear_arith)
                requires
                    self.width <= 0x10000,
                    self.height <= 0x10000,
        ;
            assert((self.width as int) * (self.height as int) >= 0) by (nonlinear_arith);
        }
        let cap: u64 = (self.width as u64) * (self.height as u64);
        if cap == 0 {
            0
        } else {
            proof {
                assert(1000int * (self.allocated_px as int) / (cap as int) <= 1000) by (
                nonlinear_arith)
                    requires
                        0 < cap as int,
                        self.allocated_px as int <= cap as int,
                ;
            }
            ((1000u64 * self.allocated_px) / cap) as u32
        }
    }

    /// Claims `px` pixels for newly rasterized glyphs, saturating at the
    /// atlas capacity.
    pub fn allocate(&mut self, px: u64)
        requires
            old(self).wf(),
        ensures
            final(self).wf(),
            final(self).spec_id() == old(self).spec_id(),
            final(self).spec_width() == old(self).spec_width(),
            final(self).spec_height() == old(self).spec_height(),
            final(self).spec_taken() == old(self).spec_taken(),
            final(self).spec_allocated() == (if old(self).spec_allocated() + px
                > old(self).spec_capacity() {
                old(self).spec_capacity()
            } else {
                old(self).spec_allocated() + px
            }),
    {
        proof {
            assert((self.width as int) * (self.height as int) <= 0x10000int * 0x10000int)
                by (nonlinear_arith)
                requires
                    self.width <= 0x10000,
                    self.height <= 0x10000,
        ;
            assert((self.width as int) * (self.height as int) >= 0) by (nonlinear_arith);
        }
        let cap: u64 = (self.width as u64) * (self.height as u64);
        if px > cap - self.allocated_px {
            self.allocated_px = cap;
        } else {
            self.allocated_px = self.allocated_px + px;
        }
    }

    /// Drains the incremental update: the range of pixels claimed since the
    /// previous drain, or nothing if the atlas is unchanged.
    pub fn take_delta(&mut self) -> (r: Option<ImageDelta>)
        requires
            old(self).wf(),
        ensures
            final(self).wf(),
            final(self).spec_id() == old(self).spec_id(),
            final(self).spec_width() == old(self).spec_width(),
            final(self).spec_height() == old(self).spec_height(),
            final(self).spec_allocated() == old(self).spec_allocated(),
            final(self).spec_taken() == old(self).spec_allocated(),
            r == (if old(self).spec_taken() < old(self).spec_allocated() {
                Some(
                    ImageDelta {
                        from_px: old(self).spec_taken(),
                        to_px: old(self).spec_allocated(),
                    },
                )
            } else {
                None::<ImageDelta>
            }),
    {
        if self.taken_px < self.allocated_px {
            let delta = ImageDelta { from_px: self.taken_px, to_px: self.allocated_px };
            self.taken_px = self.allocated_px;
            Some(delta)
        } else {
            None
        }
    }
}

} // verus!
