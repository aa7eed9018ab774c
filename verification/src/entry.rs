//! One loaded font: its backing bytes, its sorted codepoint table, its
//! em-square scale and its named variation instances.
//!
//! Parsing and outline extraction are delegated to the skrifa font parser
//! behind trusted wrappers; everything around them — filtering, sorting,
//! binary search, vectorization — is verified.

use crate::error::{DatasetError, DrawFailure, LookupKind, ParseFailure};
use crate::order::{insert_sorted_pair, sorted_strict};
use crate::pen::{
    pen_run, vectorize_events, zero_block, DrawEvent, END_CODE,
};
use skrifa::instance::{Location, Size};
use skrifa::outline::pen::PathElement;
use skrifa::outline::DrawSettings;
use skrifa::raw::TableProvider;
use skrifa::{FontRef, GlyphId, MetadataProvider};
use vstd::prelude::*;

verus! {

/// Whether the bytes parse as a font binary at all.
pub uninterp spec fn font_parses(data: Seq<u8>) -> bool;

/// Whether the parsed font carries the metrics (`head`) table that holds
/// its em-square scale.
pub uninterp spec fn font_has_metrics(data: Seq<u8>) -> bool;

/// The em-square scale a font binary declares in its metrics table,
/// as the font parser reads it.
pub uninterp spec fn font_upem(data: Seq<u8>) -> u16;

/// The (codepoint, glyph id) pairs of a font binary's character map, in
/// the order the font parser enumerates them.
pub uninterp spec fn font_charmap(data: Seq<u8>) -> Seq<(u32, u32)>;

/// The number of named variation instances a font binary declares.
pub uninterp spec fn font_instance_count(data: Seq<u8>) -> usize;

/// The outline draw events of one glyph of a font binary, at one
/// variation location, in drawing order and truncated to integer design
/// units — or `None` when the font does not parse, the glyph is absent
/// from the outline table, the instance index is out of range, or the
/// parser fails to draw. A function of the three arguments alone.
pub uninterp spec fn font_glyph_events(
    data: Seq<u8>,
    glyph_id: u32,
    instance: Option<usize>,
) -> Option<Seq<DrawEvent>>;

/// Relies on skrifa's `FontRef::from_index` and `TableProvider::head`:
/// reads the `uint16` em-square scale from the font's `head` table.
/// Whether each step succeeds, and the scale read, are functions of the
/// font bytes alone.
#[verifier::external_body]
fn parse_upem(data: &[u8]) -> (r: Result<u16, ParseFailure>)
    ensures
        r matches Ok(u) ==> u == font_upem(data@) && font_parses(data@) && font_has_metrics(
            data@,
        ),
        r matches Err(f) ==> !(font_parses(data@) && font_has_metrics(data@)) && (f
            == ParseFailure::BadBinary <==> !font_parses(data@)),
{
    let font = FontRef::from_index(data, 0).map_err(|_| ParseFailure::BadBinary)?;
    let head = font.head().map_err(|_| ParseFailure::NoMetrics)?;
    Ok(head.units_per_em())
}

/// Relies on skrifa's `Charmap::mappings`: enumerates the (codepoint,
/// glyph id) pairs of the font's character map, a function of the font
/// bytes alone. `None` exactly when the bytes do not parse as a font
/// binary.
#[verifier::external_body]
fn parse_charmap(data: &[u8]) -> (r: Option<Vec<(u32, u32)>>)
    ensures
        r matches Some(v) ==> v@ == font_charmap(data@) && font_parses(data@),
        r matches None ==> !font_parses(data@),
{
    let font = FontRef::from_index(data, 0).ok()?;
    Some(font.charmap().mappings().map(|(cp, gid)| (cp, gid.to_u32())).collect())
}

/// Relies on skrifa's `NamedInstanceCollection::len`: how many named
/// variation instances the font declares, a function of the font bytes
/// alone. `None` exactly when the bytes do not parse as a font binary.
#[verifier::external_body]
fn parse_instance_count(data: &[u8]) -> (r: Option<usize>)
    ensures
        r matches Some(n) ==> n == font_instance_count(data@) && font_parses(data@),
        r matches None ==> !font_parses(data@),
{
    let font = FontRef::from_index(data, 0).ok()?;
    Some(font.named_instances().len())
}

/// Relies on skrifa's `OutlineGlyph::draw` with the `Vec<PathElement>`
/// sink of read-fonts: collects the outline draw events of one glyph at
/// one variation location (`None` selects the neutral location, `Some(i)`
/// the i-th named instance via `NamedInstance::location`), converted to
/// integer design units by `element_event`. Succeeds exactly when
/// `font_glyph_events` has a value, and returns exactly that value.
#[verifier::external_body]
fn draw_glyph_events(data: &[u8], glyph_id: u32, instance: Option<usize>) -> (r: Result<
    Vec<DrawEvent>,
    DrawFailure,
>)
    ensures
        r matches Ok(v) ==> font_glyph_events(data@, glyph_id, instance) == Some(v@),
        r matches Err(f) ==> font_glyph_events(data@, glyph_id, instance) is None,
{
    let font = FontRef::from_index(data, 0).map_err(|_| DrawFailure::BadBinary)?;
    let glyph = font.outline_glyphs().get(GlyphId::new(glyph_id)).ok_or(DrawFailure::MissingGlyph)?;
    let location = match instance {
        Some(i) => font.named_instances().get(i).ok_or(DrawFailure::MissingInstance)?.location(),
        None => Location::default(),
    };
    let settings = DrawSettings::unhinted(Size::unscaled(), &location);
    let mut elements: Vec<PathElement> = Vec::new();
    glyph.draw(settings, &mut elements).map_err(|_| DrawFailure::Failed)?;
    Ok(elements.iter().map(element_event).collect())
}

/// The path elements collected while drawing a glyph outline.
#[verifier::external_type_specification]
#[verifier::external_body]
pub struct ExPathElement(PathElement);

/// The conversion half of `draw_glyph_events`, called from its body and
/// kept apart only for its size. Relies on `PathElement`'s public fields
/// only: maps one outline element to the draw event it denotes,
/// truncating each (possibly fractional) coordinate to integer font
/// design units.
#[verifier::external_body]
fn element_event(e: &PathElement) -> (r: DrawEvent) {
    match *e {
        PathElement::MoveTo { x, y } => DrawEvent::MoveTo(x as i32, y as i32),
        PathElement::LineTo { x, y } => DrawEvent::LineTo(x as i32, y as i32),
        PathElement::QuadTo { cx0, cy0, x, y } => DrawEvent::QuadTo(cx0 as i32, cy0 as i32, x as i32, y as i32),
        PathElement::CurveTo { cx0, cy0, cx1, cy1, x, y } => DrawEvent::CurveTo(cx0 as i32, cy0 as i32, cx1 as i32, cy1 as i32, x as i32, y as i32),
        PathElement::Close => DrawEvent::Close,
    }
}

/// Whether a codepoint passes the allow-list: absent list admits all.
pub open spec fn accepts(filter: Option<Seq<u32>>, codepoint: u32) -> bool {
    match filter {
        Some(f) => f.contains(codepoint),
        None => true,
    }
}

/// The allow-list as a sequence, when one is supplied.
pub open spec fn filter_view(filter: Option<&Vec<u32>>) -> Option<Seq<u32>> {
    match filter {
        Some(f) => Some(f@),
        None => None,
    }
}

/// Whether a charmap holds a pair for the codepoint.
pub open spec fn charmap_has_cp(m: Seq<(u32, u32)>, codepoint: u32) -> bool {
    exists|j: int| 0 <= j < m.len() && (#[trigger] m[j]).0 == codepoint
}

/// Membership test against the optional sorted allow-list.
pub fn accept_codepoint(filter: Option<&Vec<u32>>, codepoint: u32) -> (r: bool)
    requires
        filter matches Some(f) ==> sorted_strict(f@),
    ensures
        r == accepts(filter_view(filter), codepoint),
{
    match filter {
        Some(f) => crate::order::find_sorted(f, codepoint).is_some(),
        None => true,
    }
}

/// One font of the corpus.
///
/// `codepoints` is strictly ascending and index-aligned with `glyph_ids`:
/// `glyph_ids[i]` is the glyph drawn for `codepoints[i]`.
pub struct FontEntry {
    /// Where the font was read from.
    pub path: String,
    /// The font binary, owned by the entry.
    pub data: Vec<u8>,
    /// The indexed codepoints, strictly ascending.
    pub codepoints: Vec<u32>,
    /// The glyph id for each indexed codepoint.
    pub glyph_ids: Vec<u32>,
    /// The font's em-square scale.
    pub units_per_em: u16,
    /// How many named variation instances the font declares.
    pub named_instances: usize,
}

impl FontEntry {
    /// The entry's invariant: codepoints strictly ascending, glyph ids
    /// index-aligned.
    pub open spec fn wf(&self) -> bool {
        &&& sorted_strict(self.codepoints@)
        &&& self.glyph_ids@.len() == self.codepoints@.len()
    }

    /// The position of an indexed codepoint, unique since `codepoints`
    /// is strictly ascending.
    pub open spec fn cp_index(&self, codepoint: u32) -> int {
        choose|i: int| 0 <= i < self.codepoints@.len() && self.codepoints@[i] == codepoint
    }

    /// The glyph id the charmap maps an indexed codepoint to.
    pub open spec fn glyph_for(&self, codepoint: u32) -> u32 {
        self.glyph_ids@[self.cp_index(codepoint)]
    }

    /// Builds an entry from already-extracted parts, validating the
    /// invariant.
    pub fn new(
        path: String,
        data: Vec<u8>,
        codepoints: Vec<u32>,
        glyph_ids: Vec<u32>,
        units_per_em: u16,
        named_instances: usize,
    ) -> (r: Option<FontEntry>)
        ensures
            match r {
                Some(e) => {
                    &&& e.wf()
                    &&& e.path@ == path@
                    &&& e.data@ == data@
                    &&& e.codepoints@ == codepoints@
                    &&& e.glyph_ids@ == glyph_ids@
                    &&& e.units_per_em == units_per_em
                    &&& e.named_instances == named_instances
                },
                None => !(sorted_strict(codepoints@) && glyph_ids@.len() == codepoints@.len()),
            },
    {
        if glyph_ids.len() != codepoints.len() {
            return None;
        }
        if !crate::order::check_sorted_strict(&codepoints) {
            return None;
        }
        Some(FontEntry { path, data, codepoints, glyph_ids, units_per_em, named_instances })
    }

    /// Loads a font from its backing bytes: reads its metrics, filters and
    /// sorts its charmap, and counts its named instances.
    ///
    /// Succeeds exactly when the bytes parse as a font binary that
    /// carries its metrics table. The retained codepoints are exactly the
    /// charmap codepoints admitted by the allow-list, each paired with a
    /// glyph id its charmap maps it to.
    pub fn load(path: String, data: Vec<u8>, filter: Option<&Vec<u32>>) -> (r: Result<
        FontEntry,
        DatasetError,
    >)
        requires
            filter matches Some(f) ==> sorted_strict(f@),
        ensures
            (r is Ok) <==> (font_parses(data@) && font_has_metrics(data@)),
            match r {
                Ok(e) => {
                    &&& e.wf()
                    &&& e.path@ == path@
                    &&& e.data@ == data@
                    &&& e.units_per_em == font_upem(data@)
                    &&& e.named_instances == font_instance_count(data@)
                    &&& forall|cp: u32|
                        e.codepoints@.contains(cp) <==> (charmap_has_cp(font_charmap(data@), cp)
                            && accepts(filter_view(filter), cp))
                    &&& forall|i: int|
                        0 <= i < e.codepoints@.len() ==> font_charmap(data@).contains(
                            (#[trigger] e.codepoints@[i], e.glyph_ids@[i]),
                        )
                },
                Err(e) => e matches DatasetError::ParseError { path: p, missing_metrics: m }
                    && p@ == path@ && m == (font_parses(data@) && !font_has_metrics(data@)),
            },
    {
        let units_per_em = match parse_upem(data.as_slice()) {
            Ok(u) => u,
            Err(ParseFailure::BadBinary) => {
                return Err(DatasetError::ParseError { path, missing_metrics: false });
            },
            Err(ParseFailure::NoMetrics) => {
                return Err(DatasetError::ParseError { path, missing_metrics: true });
            },
        };
        let pairs = match parse_charmap(data.as_slice()) {
            Some(v) => v,
            None => {
                return Err(DatasetError::ParseError { path, missing_metrics: false });
            },
        };
        let named_instances = match parse_instance_count(data.as_slice()) {
            Some(n) => n,
            None => {
                return Err(DatasetError::ParseError { path, missing_metrics: false });
            },
        };
        let ghost charmap = font_charmap(data@);
        let mut codepoints: Vec<u32> = Vec::new();
        let mut glyph_ids: Vec<u32> = Vec::new();
        let mut k: usize = 0;
        while k < pairs.len()
            invariant
                k <= pairs@.len(),
                pairs@ == charmap,
                filter matches Some(f) ==> sorted_strict(f@),
                sorted_strict(codepoints@),
                codepoints@.len() == glyph_ids@.len(),
                forall|cp: u32|
                    codepoints@.contains(cp) <==> (charmap_has_cp(charmap.take(k as int), cp)
                        && accepts(filter_view(filter), cp)),
                forall|i: int|
                    0 <= i < codepoints@.len() ==> charmap.contains(
                        (#[trigger] codepoints@[i], glyph_ids@[i]),
                    ),
            decreases pairs@.len() - k,
        {
            let (cp, gid) = pairs[k];
            let ghost prev_cps = codepoints@;
            let ghost prev_gids = glyph_ids@;
            if accept_codepoint(filter, cp) {
                insert_sorted_pair(&mut codepoints, &mut glyph_ids, cp, gid);
            }
            proof {
                let t = charmap.take(k as int + 1);
                assert(t.drop_last() =~= charmap.take(k as int));
                assert(t.last() == charmap[k as int]);
                assert forall|c: u32| charmap_has_cp(t, c) implies (charmap_has_cp(
                    charmap.take(k as int),
                    c,
                ) || c == cp) by {
                    let j = choose|j: int| 0 <= j < t.len() && (#[trigger] t[j]).0 == c;
                    if j < k as int {
                        assert(charmap.take(k as int)[j].0 == c);
                    }
                }
                assert forall|c: u32|
                    charmap_has_cp(charmap.take(k as int), c) implies charmap_has_cp(t, c) by {
                    let j = choose|j: int|
                        0 <= j < k as int && (#[trigger] charmap.take(k as int)[j]).0 == c;
                    assert(t[j].0 == c);
                }
                if accepts(filter_view(filter), cp) {
                    assert(t[k as int].0 == cp);
                    assert(charmap_has_cp(t, cp));
                    assert forall|i: int|
                        0 <= i < codepoints@.len() implies charmap.contains(
                        (#[trigger] codepoints@[i], glyph_ids@[i]),
                    ) by {
                        if codepoints@[i] == cp && glyph_ids@[i] == gid {
                            assert(charmap[k as int] == (cp, gid));
                        } else {
                            let j = choose|j: int|
                                0 <= j < prev_cps.len() && prev_cps[j] == codepoints@[i]
                                    && prev_gids[j] == glyph_ids@[i];
                            assert(charmap.contains((prev_cps[j], prev_gids[j])));
                        }
                    }
                }
            }
            k = k + 1;
        }
        proof {
            assert(charmap.take(charmap.len() as int) =~= charmap);
        }
        Ok(FontEntry { path, data, codepoints, glyph_ids, units_per_em, named_instances })
    }

    /// How many style classes the font contributes: at least one, even
    /// without named instances.
    pub fn instance_count(&self) -> (r: usize)
        ensures
            r == if self.named_instances == 0 {
                1usize
            } else {
                self.named_instances
            },
            r >= 1,
    {
        if self.named_instances == 0 {
            1
        } else {
            self.named_instances
        }
    }

    /// Whether the font declares any named variation instances.
    pub fn is_variable(&self) -> (r: bool)
        ensures
            r == (self.named_instances > 0),
    {
        self.named_instances > 0
    }

    /// The glyph id mapped to a codepoint, by binary search.
    pub fn lookup_glyph(&self, codepoint: u32) -> (r: Result<u32, DatasetError>)
        requires
            self.wf(),
        ensures
            match r {
                Ok(g) => self.codepoints@.contains(codepoint) && g == self.glyph_for(codepoint),
                Err(e) => {
                    &&& !self.codepoints@.contains(codepoint)
                    &&& e matches DatasetError::LookupError(LookupKind::CodepointMissing {
                        path: p,
                        codepoint: c,
                    }) && p@ == self.path@ && c == codepoint
                },
            },
            (r is Ok) <==> self.codepoints@.contains(codepoint),
    {
        match crate::order::find_sorted(&self.codepoints, codepoint) {
            Some(i) => {
                proof {
                    assert(self.codepoints@[i as int] == codepoint);
                    let j = self.cp_index(codepoint);
                    assert(0 <= j < self.codepoints@.len() && self.codepoints@[j] == codepoint);
                    if (i as int) < j {
                        assert(self.codepoints@[i as int] < self.codepoints@[j]);
                    }
                    if j < i as int {
                        assert(self.codepoints@[j] < self.codepoints@[i as int]);
                    }
                    assert(j == i as int);
                }
                Ok(self.glyph_ids[i])
            },
            None => Err(
                DatasetError::LookupError(LookupKind::CodepointMissing {
                    path: self.path.clone(),
                    codepoint,
                }),
            ),
        }
    }

    /// Extracts one glyph's outline as the finished command/coordinate
    /// streams.
    ///
    /// `instance` selects the variation location: `None` the neutral one,
    /// `Some(i)` the i-th named instance, rejected when out of range.
    /// Succeeds exactly when the codepoint is indexed, the instance is in
    /// range, and the parser draws the glyph; the streams are then the
    /// vectorization of exactly that glyph's draw events (fractional
    /// coordinates truncated to integer design units): six numerators per
    /// command over the denominator `denominator_spec(units_per_em)`,
    /// terminated by one `End` code.
    pub fn glyph(&self, codepoint: u32, instance: Option<usize>) -> (r: Result<
        (Vec<i32>, Vec<i64>),
        DatasetError,
    >)
        requires
            self.wf(),
        ensures
            (r is Ok) <==> ({
                &&& self.codepoints@.contains(codepoint)
                &&& (instance matches Some(i) ==> i < self.named_instances)
                &&& font_glyph_events(self.data@, self.glyph_for(codepoint), instance) is Some
            }),
            !self.codepoints@.contains(codepoint) ==> (r matches Err(e) && e
                matches DatasetError::LookupError(LookupKind::CodepointMissing {
                path: p,
                codepoint: c,
            }) && p@ == self.path@ && c == codepoint),
            match instance {
                Some(i) => (self.codepoints@.contains(codepoint) && i >= self.named_instances)
                    ==> (r matches Err(e) && e matches DatasetError::LookupError(
                    LookupKind::InstanceOutOfRange { path: p, index: x },
                ) && p@ == self.path@ && x == i),
                None => true,
            },
            r matches Ok(s) ==> {
                &&& font_glyph_events(self.data@, self.glyph_for(codepoint), instance)
                    matches Some(evs) && s.0@ == pen_run(evs).cmds.push(END_CODE) && s.1@
                    .map_values(|v: i64| v as int) == pen_run(evs).crds + zero_block()
                &&& s.0@.len() >= 1
                &&& s.1@.len() == 6 * s.0@.len()
                &&& s.0@[s.0@.len() - 1] == END_CODE
                &&& forall|i: int|
                    0 <= i < s.0@.len() - 1 ==> 1 <= #[trigger] s.0@[i] <= 4
            },
    {
        let glyph_id = match self.lookup_glyph(codepoint) {
            Ok(g) => g,
            Err(e) => {
                return Err(e);
            },
        };
        if let Some(i) = instance {
            if i >= self.named_instances {
                return Err(
                    DatasetError::LookupError(LookupKind::InstanceOutOfRange {
                        path: self.path.clone(),
                        index: i,
                    }),
                );
            }
        }
        let events = match draw_glyph_events(self.data.as_slice(), glyph_id, instance) {
            Ok(evs) => evs,
            Err(DrawFailure::BadBinary) => {
                return Err(DatasetError::ParseError {
                    path: self.path.clone(),
                    missing_metrics: false,
                });
            },
            Err(DrawFailure::MissingGlyph) => {
                return Err(
                    DatasetError::LookupError(LookupKind::GlyphMissing {
                        path: self.path.clone(),
                        codepoint,
                    }),
                );
            },
            Err(DrawFailure::MissingInstance) => {
                let index = match instance {
                    Some(i) => i,
                    None => 0,
                };
                return Err(
                    DatasetError::LookupError(LookupKind::InstanceOutOfRange {
                        path: self.path.clone(),
                        index,
                    }),
                );
            },
            Err(DrawFailure::Failed) => {
                return Err(DatasetError::DrawError { codepoint });
            },
        };
        let streams = vectorize_events(&events, self.units_per_em);
        Ok(streams)
    }

    /// The common denominator of the coordinate numerators that `glyph`
    /// emits for this font.
    pub fn scale_denominator(&self) -> (r: i64)
        ensures
            r == crate::pen::denominator_spec(self.units_per_em),
            r >= 3,
    {
        if self.units_per_em > 0 {
            3 * (self.units_per_em as i64)
        } else {
            3
        }
    }
}

} // verus!
