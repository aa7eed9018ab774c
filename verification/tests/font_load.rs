//! Loading real (if minimal) font binaries: TrueType files holding a
//! `head` table, a format-4 `cmap` mapping {65 -> 1, 66 -> 2}, and
//! optionally an `fvar` table with two named instances.

use font_dataset::entry::FontEntry;
use font_dataset::error::{DatasetError, LookupKind};

fn be16(v: &mut Vec<u8>, x: u16) {
    v.extend_from_slice(&x.to_be_bytes());
}

fn be32(v: &mut Vec<u8>, x: u32) {
    v.extend_from_slice(&x.to_be_bytes());
}

/// A format-4 `cmap` mapping codepoints 65 and 66 to glyphs 1 and 2.
fn cmap_table() -> Vec<u8> {
    let mut cmap = Vec::new();
    be16(&mut cmap, 0); // version
    be16(&mut cmap, 1); // one encoding record
    be16(&mut cmap, 3); // platform: Windows
    be16(&mut cmap, 1); // encoding: Unicode BMP
    be32(&mut cmap, 12); // subtable offset
    be16(&mut cmap, 4); // format 4
    be16(&mut cmap, 32); // subtable length
    be16(&mut cmap, 0); // language
    be16(&mut cmap, 4); // segCountX2: two segments
    be16(&mut cmap, 4); // searchRange
    be16(&mut cmap, 1); // entrySelector
    be16(&mut cmap, 0); // rangeShift
    be16(&mut cmap, 66); // endCode of segment [65, 66]
    be16(&mut cmap, 0xFFFF); // endCode of the final segment
    be16(&mut cmap, 0); // reservedPad
    be16(&mut cmap, 65); // startCode of segment [65, 66]
    be16(&mut cmap, 0xFFFF); // startCode of the final segment
    be16(&mut cmap, 0xFFC0); // idDelta: maps 65 -> 1, 66 -> 2
    be16(&mut cmap, 1); // idDelta of the final segment
    be16(&mut cmap, 0); // idRangeOffset
    be16(&mut cmap, 0); // idRangeOffset of the final segment
    cmap
}

/// A `head` table with the given em-square scale.
fn head_table(upem: u16) -> Vec<u8> {
    head_table_with_loca(upem, 0)
}

/// A `head` table with the given em-square scale and `loca` format.
fn head_table_with_loca(upem: u16, loc_format: u16) -> Vec<u8> {
    let mut head = Vec::new();
    be32(&mut head, 0x00010000); // version
    be32(&mut head, 0x00010000); // fontRevision
    be32(&mut head, 0); // checkSumAdjustment
    be32(&mut head, 0x5F0F3CF5); // magicNumber
    be16(&mut head, 0); // flags
    be16(&mut head, upem); // unitsPerEm
    for _ in 0..16 {
        head.push(0); // created + modified
    }
    for _ in 0..4 {
        be16(&mut head, 0); // xMin, yMin, xMax, yMax
    }
    be16(&mut head, 0); // macStyle
    be16(&mut head, 8); // lowestRecPPEM
    be16(&mut head, 2); // fontDirectionHint
    be16(&mut head, loc_format); // indexToLocFormat
    be16(&mut head, 0); // glyphDataFormat
    head
}

/// A `glyf` table holding one simple triangle as glyph 1, with glyphs 0
/// and 2 empty, and the matching long-format `loca`.
fn glyf_and_loca() -> (Vec<u8>, Vec<u8>) {
    let mut glyf = Vec::new();
    be16(&mut glyf, 1); // one contour
    be16(&mut glyf, 0); // xMin
    be16(&mut glyf, 0); // yMin
    be16(&mut glyf, 500); // xMax
    be16(&mut glyf, 500); // yMax
    be16(&mut glyf, 2); // endPtsOfContours: points 0..=2
    be16(&mut glyf, 0); // no instructions
    glyf.extend_from_slice(&[1, 1, 1]); // three on-curve points, long vectors
    be16(&mut glyf, 0); // x delta to (0, 0)
    be16(&mut glyf, 500); // x delta to (500, 0)
    be16(&mut glyf, 0xFF06); // x delta -250 to (250, 500)
    be16(&mut glyf, 0); // y delta
    be16(&mut glyf, 0); // y delta
    be16(&mut glyf, 500); // y delta
    let end = glyf.len() as u32;
    let mut loca = Vec::new();
    be32(&mut loca, 0); // glyph 0 start
    be32(&mut loca, 0); // glyph 0 empty; glyph 1 start
    be32(&mut loca, end); // glyph 1 end; glyph 2 start
    be32(&mut loca, end); // glyph 2 empty
    (glyf, loca)
}

/// An `hhea` table declaring three long horizontal metrics.
fn hhea_table() -> Vec<u8> {
    let mut hhea = Vec::new();
    be32(&mut hhea, 0x00010000); // version
    be16(&mut hhea, 800); // ascender
    be16(&mut hhea, 0xFF38); // descender: -200
    be16(&mut hhea, 0); // lineGap
    be16(&mut hhea, 600); // advanceWidthMax
    be16(&mut hhea, 0); // minLeftSideBearing
    be16(&mut hhea, 0); // minRightSideBearing
    be16(&mut hhea, 500); // xMaxExtent
    be16(&mut hhea, 1); // caretSlopeRise
    be16(&mut hhea, 0); // caretSlopeRun
    be16(&mut hhea, 0); // caretOffset
    for _ in 0..4 {
        be16(&mut hhea, 0); // reserved
    }
    be16(&mut hhea, 0); // metricDataFormat
    be16(&mut hhea, 3); // numberOfHMetrics
    hhea
}

/// An `hmtx` table with three long metrics, all with zero side bearing.
fn hmtx_table() -> Vec<u8> {
    let mut hmtx = Vec::new();
    for _ in 0..3 {
        be16(&mut hmtx, 600); // advance width
        be16(&mut hmtx, 0); // left side bearing
    }
    hmtx
}

/// A version-0.5 `maxp` table declaring three glyphs.
fn maxp_table() -> Vec<u8> {
    let mut maxp = Vec::new();
    be32(&mut maxp, 0x00005000); // version 0.5
    be16(&mut maxp, 3); // numGlyphs
    maxp
}

/// An `fvar` table with one weight axis and two named instances.
fn fvar_table() -> Vec<u8> {
    let mut fvar = Vec::new();
    be16(&mut fvar, 1); // majorVersion
    be16(&mut fvar, 0); // minorVersion
    be16(&mut fvar, 16); // axesArrayOffset
    be16(&mut fvar, 2); // reserved
    be16(&mut fvar, 1); // axisCount
    be16(&mut fvar, 20); // axisSize
    be16(&mut fvar, 2); // instanceCount
    be16(&mut fvar, 8); // instanceSize: one axis, no postscript name
    fvar.extend_from_slice(b"wght"); // axis tag
    be32(&mut fvar, 100 << 16); // minValue
    be32(&mut fvar, 400 << 16); // defaultValue
    be32(&mut fvar, 900 << 16); // maxValue
    be16(&mut fvar, 0); // flags
    be16(&mut fvar, 256); // axisNameID
    be16(&mut fvar, 257); // instance 0: subfamilyNameID
    be16(&mut fvar, 0); // flags
    be32(&mut fvar, 300 << 16); // weight coordinate
    be16(&mut fvar, 258); // instance 1: subfamilyNameID
    be16(&mut fvar, 0); // flags
    be32(&mut fvar, 700 << 16); // weight coordinate
    fvar
}

/// Assembles a font binary from tables, tags already sorted.
fn build_font(tables: Vec<(&[u8; 4], Vec<u8>)>) -> Vec<u8> {
    let n = tables.len() as u16;
    let mut font = Vec::new();
    be32(&mut font, 0x00010000); // sfnt version
    be16(&mut font, n);
    be16(&mut font, 16); // searchRange
    be16(&mut font, 0); // entrySelector
    be16(&mut font, 0); // rangeShift
    let mut offset = 12 + 16 * tables.len() as u32;
    for (tag, data) in &tables {
        font.extend_from_slice(*tag);
        be32(&mut font, 0); // checksum
        be32(&mut font, offset);
        be32(&mut font, data.len() as u32);
        offset += data.len() as u32;
    }
    for (_, data) in &tables {
        font.extend_from_slice(data);
    }
    font
}

fn minimal_font(upem: u16) -> Vec<u8> {
    build_font(vec![(b"cmap", cmap_table()), (b"head", head_table(upem))])
}

/// A font whose glyph 1 (codepoint 65) is a drawable triangle.
fn outline_font(upem: u16) -> Vec<u8> {
    let (glyf, loca) = glyf_and_loca();
    build_font(vec![
        (b"cmap", cmap_table()),
        (b"glyf", glyf),
        (b"head", head_table_with_loca(upem, 1)),
        (b"hhea", hhea_table()),
        (b"hmtx", hmtx_table()),
        (b"loca", loca),
        (b"maxp", maxp_table()),
    ])
}

fn variable_font(upem: u16) -> Vec<u8> {
    build_font(vec![
        (b"cmap", cmap_table()),
        (b"fvar", fvar_table()),
        (b"head", head_table(upem)),
    ])
}

#[test]
fn load_reads_metrics_and_charmap() {
    let e = FontEntry::load(String::from("mini.ttf"), minimal_font(1000), None).unwrap();
    assert_eq!(e.units_per_em, 1000);
    assert_eq!(e.codepoints, vec![65, 66]);
    assert_eq!(e.glyph_ids, vec![1, 2]);
    assert_eq!(e.named_instances, 0);
    assert!(!e.is_variable());
    assert_eq!(e.instance_count(), 1);
}

#[test]
fn load_counts_named_instances() {
    let e = FontEntry::load(String::from("vari.ttf"), variable_font(1000), None).unwrap();
    assert_eq!(e.named_instances, 2);
    assert!(e.is_variable());
    assert_eq!(e.instance_count(), 2);
    assert_eq!(e.codepoints, vec![65, 66]);
}

#[test]
fn load_applies_the_allow_list() {
    let filter = vec![66u32];
    let e = FontEntry::load(String::from("mini.ttf"), minimal_font(1000), Some(&filter)).unwrap();
    assert_eq!(e.codepoints, vec![66]);
    assert_eq!(e.glyph_ids, vec![2]);

    let none_of_them = vec![1u32, 2];
    let e = FontEntry::load(String::from("mini.ttf"), minimal_font(1000), Some(&none_of_them))
        .unwrap();
    assert_eq!(e.codepoints, Vec::<u32>::new());
}

#[test]
fn load_rejects_garbage() {
    let r = FontEntry::load(String::from("junk.bin"), vec![0, 1, 2, 3], None);
    assert!(matches!(r, Err(DatasetError::ParseError { .. })));
    if let Err(DatasetError::ParseError { path, .. }) = r {
        assert_eq!(path, "junk.bin");
    }
}

#[test]
fn glyph_without_outline_tables_is_a_lookup_error() {
    let e = FontEntry::load(String::from("mini.ttf"), minimal_font(1000), None).unwrap();
    assert_eq!(
        e.glyph(65, None),
        Err(DatasetError::LookupError(LookupKind::GlyphMissing {
            path: String::from("mini.ttf"),
            codepoint: 65,
        }))
    );
}

#[test]
fn glyph_rejects_out_of_range_instances() {
    let e = FontEntry::load(String::from("vari.ttf"), variable_font(1000), None).unwrap();
    assert_eq!(
        e.glyph(65, Some(2)),
        Err(DatasetError::LookupError(LookupKind::InstanceOutOfRange {
            path: String::from("vari.ttf"),
            index: 2,
        }))
    );
}

#[test]
fn dataset_over_a_loaded_font() {
    let e = FontEntry::load(String::from("mini.ttf"), minimal_font(2048), None).unwrap();
    let ds = font_dataset::dataset::FontDataset::new(vec![e]);
    assert_eq!(ds.sample_count(), 2);
    assert_eq!(ds.style_class_count(), 1);
    assert_eq!(ds.content_class_count(), 2);
    assert_eq!(ds.locate(0).unwrap(), (0, None, 65, 0, 0));
    assert_eq!(ds.locate(1).unwrap(), (0, None, 66, 0, 1));
}

#[test]
fn dataset_over_a_loaded_variable_font() {
    let e = FontEntry::load(String::from("vari.ttf"), variable_font(1000), None).unwrap();
    let ds = font_dataset::dataset::FontDataset::new(vec![e]);
    assert_eq!(ds.sample_count(), 4);
    assert_eq!(ds.style_class_count(), 2);
    assert_eq!(ds.content_class_count(), 2);
    assert_eq!(ds.locate(0).unwrap(), (0, Some(0), 65, 0, 0));
    assert_eq!(ds.locate(1).unwrap(), (0, Some(0), 66, 0, 1));
    assert_eq!(ds.locate(2).unwrap(), (0, Some(1), 65, 1, 0));
    assert_eq!(ds.locate(3).unwrap(), (0, Some(1), 66, 1, 1));
}

#[test]
fn glyph_extraction_draws_the_outline() {
    let e = FontEntry::load(String::from("tri.ttf"), outline_font(1000), None).unwrap();
    let (commands, coords) = e.glyph(65, None).unwrap();
    assert_eq!(commands, vec![1, 2, 2, 4, 5]);
    assert_eq!(coords.len(), 6 * commands.len());
    // Endpoints in numerators over the denominator 3 * 1000: the
    // triangle (0,0), (500,0), (250,500) normalized to the em-square.
    assert_eq!(&coords[0..6], &[0, 0, 0, 0, 0, 0]);
    assert_eq!(&coords[6..12], &[0, 0, 0, 0, 1500, 0]);
    assert_eq!(&coords[12..18], &[0, 0, 0, 0, 750, 1500]);
    assert_eq!(&coords[18..24], &[0, 0, 0, 0, 0, 0]);
    assert_eq!(&coords[24..30], &[0, 0, 0, 0, 0, 0]);
}

#[test]
fn item_returns_streams_and_classes() {
    let e = FontEntry::load(String::from("tri.ttf"), outline_font(1000), None).unwrap();
    let ds = font_dataset::dataset::FontDataset::new(vec![e]);
    let (commands, coords, style_idx, content_idx) = ds.item(0).unwrap();
    assert_eq!(commands, vec![1, 2, 2, 4, 5]);
    assert_eq!(coords.len(), 30);
    assert_eq!(style_idx, 0);
    assert_eq!(content_idx, 0);
    // Codepoint 66 maps to the empty glyph 2: only the terminator.
    let (commands, coords, _, content_idx) = ds.item(1).unwrap();
    assert_eq!(commands, vec![5]);
    assert_eq!(coords, vec![0, 0, 0, 0, 0, 0]);
    assert_eq!(content_idx, 1);
}
