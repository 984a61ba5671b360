use std::collections::HashMap;

use glyph_atlas::chars::classify;
use glyph_atlas::encode::{encode_infos, encode_records, INFO_STRIDE};
use glyph_atlas::outline::{BBox, Outline};
use glyph_atlas::table::{
    assemble, glyph_data, GlyphData, GlyphInfo, Metrics, REPLACEMENT_CHARACTER,
};

fn polygon(corners: usize) -> Outline {
    let mut o = Outline::new();
    o.move_to(0, 0);
    for k in 1..corners {
        o.line_to(k as i32 * 10, (k % 2) as i32 * 10).unwrap();
    }
    o.line_to(0, 0).unwrap();
    o.close().unwrap();
    o
}

fn glyph(outline: Option<Outline>, advance: u16) -> GlyphData {
    GlyphData { outline, metrics: Metrics { advance } }
}

fn info(start: u32, end: u32) -> GlyphInfo {
    GlyphInfo { start, end }
}

#[test]
fn glyph_with_two_sub_paths_spans_seven_curves() {
    let mut o = Outline::new();
    for (start, n) in [(0, 3), (1000, 4)] {
        o.move_to(start, 0);
        for k in 1..n {
            o.line_to(start + k * 10, k * 7).unwrap();
        }
        o.line_to(start, 0).unwrap();
        o.close().unwrap();
    }
    let mut m = HashMap::new();
    m.insert('A' as u32, glyph(Some(o), 500));
    let t = assemble(&m).unwrap();
    let a = t.infos['A' as usize];
    assert_eq!(a.end - a.start, 7);
    assert_eq!(t.curves.len(), 7);
}

#[test]
fn missing_alphanumeric_copies_replacement_record() {
    let mut m = HashMap::new();
    m.insert('A' as u32, glyph(Some(polygon(10)), 500));
    m.insert(REPLACEMENT_CHARACTER, glyph(Some(polygon(3)), 600));
    let t = assemble(&m).unwrap();
    let rep = REPLACEMENT_CHARACTER as usize;
    assert_eq!(t.infos[rep], info(10, 13));
    assert_eq!(t.metrics[rep], Metrics { advance: 600 });
    let b = 'B' as usize;
    assert_eq!(t.infos[b], info(10, 13));
    assert_eq!(t.metrics[b], Metrics { advance: 600 });
    assert_eq!(t.metrics[b].advance as f32 / 1000.0, 0.6);
    assert_eq!(t.infos['7' as usize], info(10, 13));
    assert_eq!(t.infos['A' as usize], info(0, 10));
    assert_eq!(t.curves.len(), 13);
}

#[test]
fn missing_symbol_stays_blank() {
    let mut m = HashMap::new();
    m.insert(REPLACEMENT_CHARACTER, glyph(Some(polygon(3)), 600));
    let t = assemble(&m).unwrap();
    for c in ['!', ' ', '+', '\u{2603}'] {
        assert_eq!(t.infos[c as usize], info(0, 0));
        assert_eq!(t.metrics[c as usize], Metrics { advance: 0 });
    }
}

#[test]
fn surrogates_are_zeroed_and_never_patched() {
    let mut m = HashMap::new();
    m.insert(REPLACEMENT_CHARACTER, glyph(Some(polygon(3)), 600));
    m.insert(0xD800, glyph(Some(polygon(4)), 700));
    let t = assemble(&m).unwrap();
    for u in [0xD800usize, 0xDABC, 0xDFFF] {
        assert_eq!(t.infos[u], info(0, 0));
        assert_eq!(t.metrics[u], Metrics { advance: 0 });
    }
    assert_eq!(t.curves.len(), 3);
}

#[test]
fn tables_are_dense_over_the_codespace() {
    let m: HashMap<u32, GlyphData> = HashMap::new();
    let t = assemble(&m).unwrap();
    assert_eq!(t.infos.len(), 0x11_0000);
    assert_eq!(t.metrics.len(), 0x11_0000);
    assert!(t.curves.is_empty());
    assert_eq!(t.infos['Z' as usize], info(0, 0));
}

#[test]
fn shapeless_glyph_keeps_metrics_and_empty_range() {
    let mut m = HashMap::new();
    m.insert('A' as u32, glyph(Some(polygon(5)), 500));
    m.insert(' ' as u32, glyph(None, 250));
    m.insert('a' as u32, glyph(Some(polygon(4)), 450));
    let t = assemble(&m).unwrap();
    assert_eq!(t.infos[' ' as usize], info(0, 0));
    assert_eq!(t.metrics[' ' as usize], Metrics { advance: 250 });
    assert_eq!(t.infos['A' as usize], info(0, 5));
    assert_eq!(t.infos['a' as usize], info(5, 9));
}

#[test]
fn missing_alphanumeric_without_replacement_glyph_is_zero() {
    let m: HashMap<u32, GlyphData> = HashMap::new();
    let t = assemble(&m).unwrap();
    assert_eq!(t.infos['q' as usize], info(0, 0));
    assert_eq!(t.metrics['q' as usize], Metrics { advance: 0 });
}

#[test]
fn classify_reads_the_character() {
    assert!(classify('a' as u32));
    assert!(classify('9' as u32));
    assert!(classify(0x00E9));
    assert!(!classify('!' as u32));
    assert!(!classify(0xFFFD));
    assert!(!classify(0xD800));
    assert!(!classify(0x11_0000));
}

#[test]
fn glyph_data_needs_an_advance() {
    let b = BBox { x_min: 0, y_min: 0, x_max: 1000, y_max: 1000 };
    assert!(glyph_data(None, Some(polygon(3)), &b).is_none());
    let d = glyph_data(Some(321), None, &b).unwrap();
    assert!(d.outline.is_none());
    assert_eq!(d.metrics.advance, 321);
    let d = glyph_data(Some(400), Some(polygon(3)), &b).unwrap();
    let o = d.outline.unwrap();
    assert_eq!(o.len(), 3);
    // The first curve ran from (0, 0); after the swap that is its p2, flipped.
    assert_eq!((o.curves()[0].p2.x, o.curves()[0].p2.y), (0, b.y_scale()));
}

#[test]
fn info_records_are_sixteen_bytes() {
    let bytes = encode_infos(&vec![info(1, 0x0102_0304), info(0xFFFF_FFFF, 0)]);
    assert_eq!(bytes.len(), 2 * INFO_STRIDE);
    assert_eq!(&bytes[0..8], &[1, 0, 0, 0, 4, 3, 2, 1]);
    assert_eq!(&bytes[8..16], &[0; 8]);
    assert_eq!(&bytes[16..24], &[0xFF, 0xFF, 0xFF, 0xFF, 0, 0, 0, 0]);
    assert_eq!(&bytes[24..32], &[0; 8]);
}

#[test]
fn records_are_padded_to_stride() {
    let bytes = encode_records(&vec![vec![0xAABB_CCDD], vec![]], 8);
    assert_eq!(bytes, vec![0xDD, 0xCC, 0xBB, 0xAA, 0, 0, 0, 0, 0, 0, 0, 0, 0, 0, 0, 0]);
    let floats = encode_records(&vec![vec![0.5f32.to_bits()]], 4);
    assert_eq!(floats, 0.5f32.to_le_bytes().to_vec());
}
