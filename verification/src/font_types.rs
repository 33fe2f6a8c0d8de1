//! Font identity and configuration: style keys, per-font tweaks, raw font
//! records, and the catalog that maps each font family to its ordered
//! fallback chain of font names.

use vstd::prelude::*;

use crate::assoc::assoc_find;
use crate::assoc::lemma_assoc_find_push;
use crate::assoc::lemma_assoc_find_skip_end;
use crate::assoc::lemma_assoc_find_skip_found;
use crate::assoc::lemma_assoc_find_skip_step;
use crate::assoc::lemma_assoc_find_update;

verus! {

/// Which family of fonts to draw a style from.
#[derive(Clone, Debug)]
pub enum FontType {
    /// A font where characters have varying widths.
    Proportional,
    /// A font where every character has the same width.
    Monospace,
    /// One of the names registered in [`FontDefinitions::type_fonts`].
    Name(String),
}

/// The mathematical value of a [`FontType`]: the name is abstracted to its
/// character sequence so that two keys with equal text are equal values.
#[verifier::ext_equal]
pub enum FontTypeView {
    Proportional,
    Monospace,
    Name(Seq<char>),
}

impl View for FontType {
    type V = FontTypeView;

    open spec fn view(&self) -> FontTypeView {
        match self {
            FontType::Proportional => FontTypeView::Proportional,
            FontType::Monospace => FontTypeView::Monospace,
            FontType::Name(s) => FontTypeView::Name(s@),
        }
    }
}

/// The display name of a family, as a character sequence.
pub open spec fn font_type_name_view(t: FontTypeView) -> Seq<char> {
    match t {
        FontTypeView::Proportional => "Proportional"@,
        FontTypeView::Monospace => "Monospace"@,
        FontTypeView::Name(s) => s,
    }
}

impl FontType {
    /// The display name of this family.
    pub fn name(&self) -> (r: String)
        ensures
            r@ == font_type_name_view(self@),
    {
        match self {
            FontType::Proportional => "Proportional".to_owned(),
            FontType::Monospace => "Monospace".to_owned(),
            FontType::Name(s) => s.clone(),
        }
    }

    /// Equality of family keys, decided by the name text.
    pub fn same(&self, other: &FontType) -> (r: bool)
        ensures
            r == (self@ == other@),
    {
        match (self, other) {
            (FontType::Proportional, FontType::Proportional) => true,
            (FontType::Monospace, FontType::Monospace) => true,
            (FontType::Name(a), FontType::Name(b)) => *a == *b,
            _ => false,
        }
    }

    /// A copy whose mathematical value is exactly this one's.
    pub fn duplicate(&self) -> (r: FontType)
        ensures
            r@ == self@,
    {
        match self {
            FontType::Proportional => FontType::Proportional,
            FontType::Monospace => FontType::Monospace,
            FontType::Name(s) => FontType::Name(s.clone()),
        }
    }
}

impl Default for FontType {
    fn default() -> (r: Self)
        ensures
            r@ == FontTypeView::Proportional,
    {
        FontType::Proportional
    }
}

/// How to select a sized font: a point size in thousandths of a point and a
/// family key.
#[derive(Clone, Debug)]
pub struct FontId {
    /// Height in thousandths of a point.
    pub size_milli: u32,
    /// What font family to use.
    pub font_type: FontType,
}

/// The mathematical value of a [`FontId`].
#[verifier::ext_equal]
pub struct FontIdView {
    pub size_milli: u32,
    pub family: FontTypeView,
}

impl View for FontId {
    type V = FontIdView;

    open spec fn view(&self) -> FontIdView {
        FontIdView { size_milli: self.size_milli, family: self.font_type@ }
    }
}

impl FontId {
    pub fn new(size_milli: u32, font_type: FontType) -> (r: Self)
        ensures
            r@.size_milli == size_milli,
            r@.family == font_type@,
    {
        FontId { size_milli, font_type }
    }

    pub fn proportional(size_milli: u32) -> (r: Self)
        ensures
            r@.size_milli == size_milli,
            r@.family == FontTypeView::Proportional,
    {
        FontId::new(size_milli, FontType::Proportional)
    }

    pub fn monospace(size_milli: u32) -> (r: Self)
        ensures
            r@.size_milli == size_milli,
            r@.family == FontTypeView::Monospace,
    {
        FontId::new(size_milli, FontType::Monospace)
    }

    /// A copy whose mathematical value is exactly this one's.
    pub fn duplicate(&self) -> (r: FontId)
        ensures
            r@ == self@,
    {
        FontId { size_milli: self.size_milli, font_type: self.font_type.duplicate() }
    }
}

impl Default for FontId {
    /// 14 points, proportional.
    fn default() -> (r: Self)
        ensures
            r@.size_milli == 14000,
            r@.family == FontTypeView::Proportional,
    {
        FontId { size_milli: 14000, font_type: FontType::Proportional }
    }
}

/// The tweak every font record starts with.
pub open spec fn default_tweak() -> FontTweak {
    FontTweak { scale_milli: 1000u32, y_offset_factor_milli: -200i32, y_offset_milli: 0i32 }
}

/// Extra scale and vertical tweak to apply to all text of a certain font.
/// All fields are in thousandths.
#[derive(Clone, Copy, Debug, PartialEq, Eq, Structural)]
pub struct FontTweak {
    /// Scale the font by this many thousandths (1000 leaves it unchanged).
    pub scale_milli: u32,
    /// Shift the font downwards by this fraction (in thousandths) of the
    /// font size in points; negative values shift it upwards.
    pub y_offset_factor_milli: i32,
    /// Shift the font downwards by this many thousandths of a point.
    pub y_offset_milli: i32,
}

impl Default for FontTweak {
    /// No scaling, and a slight upward shift that centers the default fonts.
    fn default() -> (r: Self)
        ensures
            r == default_tweak(),
    {
        FontTweak { scale_milli: 1000, y_offset_factor_milli: -200, y_offset_milli: 0 }
    }
}

/// A `.ttf` or `.otf` file and a font face index.
#[derive(Clone, Debug)]
pub struct FontData {
    /// The content of a `.ttf` or `.otf` file.
    pub font: Vec<u8>,
    /// Which font face in the file to use. When in doubt, use `0`.
    pub index: u32,
    /// Extra scale and vertical tweak to apply to all text of this font.
    pub tweak: FontTweak,
}

/// The mathematical value of a [`FontData`].
#[verifier::ext_equal]
pub struct FontDataView {
    pub font: Seq<u8>,
    pub index: u32,
    pub tweak: FontTweak,
}

impl View for FontData {
    type V = FontDataView;

    open spec fn view(&self) -> FontDataView {
        FontDataView { font: self.font@, index: self.index, tweak: self.tweak }
    }
}

impl FontData {
    pub fn from_static(font: &'static [u8]) -> (r: Self)
        ensures
            r@.font == font@,
            r@.index == 0,
            r@.tweak == default_tweak(),
    {
        FontData { font: vstd::slice::slice_to_vec(font), index: 0, tweak: FontTweak::default() }
    }

    pub fn from_owned(font: Vec<u8>) -> (r: Self)
        ensures
            r@.font == font@,
            r@.index == 0,
            r@.tweak == default_tweak(),
    {
        FontData { font, index: 0, tweak: FontTweak::default() }
    }

    pub fn tweak(self, tweak: FontTweak) -> (r: Self)
        ensures
            r@.font == self@.font,
            r@.index == self@.index,
            r@.tweak == tweak,
    {
        FontData { tweak, ..self }
    }

    /// A copy whose mathematical value is exactly this one's.
    pub fn duplicate(&self) -> (r: FontData)
        ensures
            r@ == self@,
    {
        FontData {
            font: vstd::slice::slice_to_vec(self.font.as_slice()),
            index: self.index,
            tweak: self.tweak,
        }
    }
}

/// A registered font record as the catalog's contracts see it: a name and the
/// record's value.
pub type FontEntryView = (Seq<char>, FontDataView);

/// A fallback-chain binding as the catalog's contracts see it: a family key
/// and the ordered names of the fonts to try.
pub type ChainEntryView = (FontTypeView, Seq<Seq<char>>);

/// Describes the registered font files and which of them each family uses,
/// in priority order: the first name is the primary font and the rest are
/// fallbacks.
#[derive(Clone, Debug)]
pub struct FontDefinitions {
    /// Registered font records, keyed by name. Names are unique: insertion
    /// goes through [`FontDefinitions::insert_font_data`].
    pub font_data_map: Vec<(String, FontData)>,
    /// The ordered font names each family draws from. The names should all
    /// be registered in [`FontDefinitions::font_data_map`].
    pub type_fonts: Vec<(FontType, Vec<String>)>,
}

impl FontDefinitions {
    /// The registered font records, as name/value pairs of mathematical
    /// values.
    pub open spec fn fonts_view(&self) -> Seq<FontEntryView> {
        self.font_data_map@.map_values(|p: (String, FontData)| (p.0@, p.1@))
    }

    /// The fallback-chain bindings, as family/names pairs of mathematical
    /// values.
    pub open spec fn chains_view(&self) -> Seq<ChainEntryView> {
        self.type_fonts@.map_values(
            |p: (FontType, Vec<String>)| (p.0@, p.1@.map_values(|n: String| n@)),
        )
    }

    /// The record registered under `name`, if any.
    pub open spec fn spec_font_data(&self, name: Seq<char>) -> Option<FontDataView> {
        match assoc_find(self.fonts_view(), name) {
            Some(e) => Some(e.1),
            None => None,
        }
    }

    /// The fallback chain bound to `family`, if any.
    pub open spec fn spec_type_fonts(&self, family: FontTypeView) -> Option<Seq<Seq<char>>> {
        match assoc_find(self.chains_view(), family) {
            Some(e) => Some(e.1),
            None => None,
        }
    }

    /// Both tables equal, as mathematical values.
    pub open spec fn equal_views(&self, other: &FontDefinitions) -> bool {
        self.fonts_view() == other.fonts_view() && self.chains_view() == other.chains_view()
    }

    /// A catalog with no fonts, and the two built-in families bound to empty
    /// fallback chains.
    pub fn empty() -> (r: Self)
        ensures
            r.fonts_view() == Seq::<FontEntryView>::empty(),
            r.chains_view() == seq![
                (FontTypeView::Monospace, Seq::<Seq<char>>::empty()),
                (FontTypeView::Proportional, Seq::<Seq<char>>::empty()),
            ],
            r.spec_type_fonts(FontTypeView::Monospace) == Some(Seq::<Seq<char>>::empty()),
            r.spec_type_fonts(FontTypeView::Proportional) == Some(Seq::<Seq<char>>::empty()),
    {
        let mut type_fonts: Vec<(FontType, Vec<String>)> = Vec::new();
        type_fonts.push((FontType::Monospace, Vec::new()));
        type_fonts.push((FontType::Proportional, Vec::new()));
        let r = FontDefinitions { font_data_map: Vec::new(), type_fonts };
        proof {
            assert(r.fonts_view() =~= Seq::<FontEntryView>::empty());
            let cv = r.chains_view();
            assert(cv =~~= seq![
                (FontTypeView::Monospace, Seq::<Seq<char>>::empty()),
                (FontTypeView::Proportional, Seq::<Seq<char>>::empty()),
            ]);
            assert(assoc_find(cv, FontTypeView::Monospace) == Some(cv[0]));
            assert(cv.drop_first()[0] == cv[1]);
            assert(assoc_find(cv, FontTypeView::Proportional) == assoc_find(
                cv.drop_first(),
                FontTypeView::Proportional,
            ));
            assert(assoc_find(cv.drop_first(), FontTypeView::Proportional) == Some(cv[1]));
        }
        r
    }

    /// The record registered under `name`, if any.
    pub fn get_font_data(&self, name: &String) -> (r: Option<&FontData>)
        ensures
            match r {
                Some(d) => self.spec_font_data(name@) == Some(d@),
                None => self.spec_font_data(name@) is None,
            },
    {
        let n = self.font_data_map.len();
        let ghost fonts = self.fonts_view();
        proof {
            assert(fonts.skip(0) =~= fonts);
        }
        let mut i: usize = 0;
        while i < n
            invariant
                n == self.font_data_map.len(),
                i <= n,
                fonts == self.fonts_view(),
                assoc_find(fonts.skip(i as int), name@) == assoc_find(fonts, name@),
            decreases n - i,
        {
            if self.font_data_map[i].0 == *name {
                proof {
                    lemma_assoc_find_skip_found(fonts, i as int, name@);
                }
                return Some(&self.font_data_map[i].1);
            }
            proof {
                lemma_assoc_find_skip_step(fonts, i as int, name@);
            }
            i += 1;
        }
        proof {
            lemma_assoc_find_skip_end(fonts, name@);
        }
        None
    }

    /// Registers `data` under `name` unless a record of that name exists, in
    /// which case the catalog is unchanged; either way the record now under
    /// `name` is returned.
    pub fn register_font_if_new(&mut self, name: &String, data: FontData) -> (r: &FontData)
        ensures
            old(self).spec_font_data(name@) is Some ==> final(self).fonts_view() == old(
                self,
            ).fonts_view() && Some(r@) == old(self).spec_font_data(name@),
            old(self).spec_font_data(name@) is None ==> final(self).fonts_view() == old(
                self,
            ).fonts_view().push((name@, data@)) && r@ == data@,
            final(self).chains_view() == old(self).chains_view(),
            final(self).spec_font_data(name@) == Some(r@),
    {
        let ghost fonts = old(self).fonts_view();
        proof {
            assert(fonts.skip(0) =~= fonts);
        }
        let n = self.font_data_map.len();
        let mut i: usize = 0;
        while i < n
            invariant
                n == self.font_data_map.len(),
                i <= n,
                *self == *old(self),
                fonts == self.fonts_view(),
                assoc_find(fonts.skip(i as int), name@) == assoc_find(fonts, name@),
            decreases n - i,
        {
            if self.font_data_map[i].0 == *name {
                proof {
                    lemma_assoc_find_skip_found(fonts, i as int, name@);
                }
                return &self.font_data_map[i].1;
            }
            proof {
                lemma_assoc_find_skip_step(fonts, i as int, name@);
            }
            i += 1;
        }
        proof {
            lemma_assoc_find_skip_end(fonts, name@);
        }
        self.font_data_map.push((name.clone(), data));
        proof {
            assert(self.fonts_view() =~~= fonts.push(
                (name@, self.font_data_map@.last().1@),
            ));
            lemma_assoc_find_push(fonts, (name@, self.font_data_map@.last().1@), name@);
        }
        let m = self.font_data_map.len();
        &self.font_data_map[m - 1].1
    }

    /// The fallback chain bound to `family`, if any.
    pub fn get_type_fonts(&self, family: &FontType) -> (r: Option<&Vec<String>>)
        ensures
            match r {
                Some(v) => self.spec_type_fonts(family@) == Some(
                    v@.map_values(|n: String| n@),
                ),
                None => self.spec_type_fonts(family@) is None,
            },
    {
        let n = self.type_fonts.len();
        let ghost chains = self.chains_view();
        proof {
            assert(chains.skip(0) =~= chains);
        }
        let mut i: usize = 0;
        while i < n
            invariant
                n == self.type_fonts.len(),
                i <= n,
                chains == self.chains_view(),
                assoc_find(chains.skip(i as int), family@) == assoc_find(chains, family@),
            decreases n - i,
        {
            if self.type_fonts[i].0.same(family) {
                proof {
                    lemma_assoc_find_skip_found(chains, i as int, family@);
                }
                return Some(&self.type_fonts[i].1);
            }
            proof {
                lemma_assoc_find_skip_step(chains, i as int, family@);
            }
            i += 1;
        }
        proof {
            lemma_assoc_find_skip_end(chains, family@);
        }
        None
    }

    /// Appends `name` to the fallback chain of `family`, binding the family
    /// to a one-name chain if it had none. Only the first binding of the
    /// family (the one lookup sees) is touched.
    pub fn append_type_font(&mut self, family: &FontType, name: &String)
        ensures
            final(self).fonts_view() == old(self).fonts_view(),
            final(self).spec_type_fonts(family@) == Some(
                (match old(self).spec_type_fonts(family@) {
                    Some(chain) => chain,
                    None => Seq::<Seq<char>>::empty(),
                }).push(name@),
            ),
            forall|f: FontTypeView|
                f != family@ ==> final(self).spec_type_fonts(f) == old(self).spec_type_fonts(f),
    {
        let ghost chains = old(self).chains_view();
        proof {
            assert(chains.skip(0) =~= chains);
        }
        let n = self.type_fonts.len();
        let mut i: usize = 0;
        while i < n
            invariant
                n == self.type_fonts.len(),
                i <= n,
                *self == *old(self),
                chains == self.chains_view(),
                assoc_find(chains.skip(i as int), family@) == assoc_find(chains, family@),
                forall|j: int| 0 <= j < i ==> chains[j].0 != family@,
            decreases n - i,
        {
            if self.type_fonts[i].0.same(family) {
                proof {
                    lemma_assoc_find_skip_found(chains, i as int, family@);
                }
                let pair = &mut self.type_fonts[i];
                pair.1.push(name.clone());
                proof {
                    let ghost updated = (
                        chains[i as int].0,
                        chains[i as int].1.push(name@),
                    );
                    assert(self.chains_view() =~~= chains.update(i as int, updated));
                    lemma_assoc_find_update(
                        chains,
                        i as int,
                        chains[i as int].1.push(name@),
                        family@,
                    );
                }
                return ;
            }
            proof {
                lemma_assoc_find_skip_step(chains, i as int, family@);
            }
            i += 1;
        }
        proof {
            lemma_assoc_find_skip_end(chains, family@);
        }
        let mut chain: Vec<String> = Vec::new();
        chain.push(name.clone());
        self.type_fonts.push((family.duplicate(), chain));
        proof {
            let ghost e = (family@, seq![name@]);
            assert(self.chains_view() =~~= chains.push(e));
            lemma_assoc_find_push(chains, e, family@);
            assert forall|f: FontTypeView|
                f != family@ implies self.spec_type_fonts(f) == old(self).spec_type_fonts(f) by {
                lemma_assoc_find_push(chains, e, f);
            }
            assert(Seq::<Seq<char>>::empty().push(name@) =~= seq![name@]);
        }
    }

    /// A copy whose tables hold exactly the same mathematical values.
    pub fn duplicate(&self) -> (r: FontDefinitions)
        ensures
            r.fonts_view() == self.fonts_view(),
            r.chains_view() == self.chains_view(),
    {
        let mut font_data_map: Vec<(String, FontData)> = Vec::new();
        let n = self.font_data_map.len();
        let mut i: usize = 0;
        while i < n
            invariant
                n == self.font_data_map.len(),
                i <= n,
                font_data_map@.map_values(|p: (String, FontData)| (p.0@, p.1@))
                    =~~= self.fonts_view().take(i as int),
            decreases n - i,
        {
            let entry = &self.font_data_map[i];
            font_data_map.push((entry.0.clone(), entry.1.duplicate()));
            proof {
                assert(self.fonts_view().take(i + 1) =~= self.fonts_view().take(i as int).push(
                    self.fonts_view()[i as int],
                ));
                assert(font_data_map@.map_values(|p: (String, FontData)| (p.0@, p.1@))
                    =~~= self.fonts_view().take(i + 1));
            }
            i += 1;
        }
        let mut type_fonts: Vec<(FontType, Vec<String>)> = Vec::new();
        let m = self.type_fonts.len();
        let mut j: usize = 0;
        while j < m
            invariant
                m == self.type_fonts.len(),
                j <= m,
                type_fonts@.map_values(
                    |p: (FontType, Vec<String>)| (p.0@, p.1@.map_values(|x: String| x@)),
                ) =~~= self.chains_view().take(j as int),
            decreases m - j,
        {
            let entry = &self.type_fonts[j];
            let mut names: Vec<String> = Vec::new();
            let c = entry.1.len();
            let mut k: usize = 0;
            while k < c
                invariant
                    c == entry.1.len(),
                    k <= c,
                    names@.map_values(|x: String| x@) =~= entry.1@.map_values(
                        |x: String| x@,
                    ).take(k as int),
                decreases c - k,
            {
                names.push(entry.1[k].clone());
                proof {
                    let ghost full = entry.1@.map_values(|x: String| x@);
                    assert(full.take(k + 1) =~= full.take(k as int).push(full[k as int]));
                }
                k += 1;
            }
            proof {
                assert(names@.map_values(|x: String| x@) =~= entry.1@.map_values(
                    |x: String| x@,
                ));
            }
            type_fonts.push((entry.0.duplicate(), names));
            proof {
                assert(self.chains_view().take(j + 1) =~= self.chains_view().take(
                    j as int,
                ).push(self.chains_view()[j as int]));
                assert(type_fonts@.map_values(
                    |p: (FontType, Vec<String>)| (p.0@, p.1@.map_values(|x: String| x@)),
                ) =~~= self.chains_view().take(j + 1));
            }
            j += 1;
        }
        let r = FontDefinitions { font_data_map, type_fonts };
        proof {
            assert(r.fonts_view() =~~= self.fonts_view());
            assert(r.chains_view() =~~= self.chains_view());
        }
        r
    }
}

impl Default for FontDefinitions {
    /// No registered fonts; the built-in families are bound to empty chains.
    fn default() -> (r: Self)
        ensures
            r.fonts_view() == Seq::<FontEntryView>::empty(),
            r.spec_type_fonts(FontTypeView::Monospace) == Some(Seq::<Seq<char>>::empty()),
            r.spec_type_fonts(FontTypeView::Proportional) == Some(Seq::<Seq<char>>::empty()),
    {
        FontDefinitions::empty()
    }
}

} // verus!
