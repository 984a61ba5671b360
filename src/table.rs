use vstd::prelude::*;
use std::collections::HashMap;
use crate::chars::{CODEPOINT_COUNT, alphanumeric_scalar, classify, valid_scalar};
use crate::geom::Curve;
use crate::outline::{BBox, Outline, normalized};

verus! {

broadcast use vstd::std_specs::hash::group_hash_axioms;

/// Codepoint whose record stands in for missing alphanumeric glyphs.
pub const REPLACEMENT_CHARACTER: u32 = 0xFFFD;

/// Horizontal advance in font units; the rendered value is this over the
/// global box width.
#[derive(Clone, Copy, Debug, PartialEq, Eq, Structural)]
pub struct Metrics {
    pub advance: u16,
}

/// The half-open range `[start, end)` of a glyph's curves in the curve buffer.
#[derive(Clone, Copy, Debug, PartialEq, Eq, Structural)]
pub struct GlyphInfo {
    pub start: u32,
    pub end: u32,
}

/// What one codepoint contributes: its normalized outline, if it has a
/// shape, and its metrics.
#[derive(Debug)]
pub struct GlyphData {
    pub outline: Option<Outline>,
    pub metrics: Metrics,
}

/// The three dense tables: all curves in codepoint order, and one info and
/// one metrics record per codepoint of the whole codespace.
#[derive(Debug)]
pub struct GlyphTables {
    pub curves: Vec<Curve>,
    pub infos: Vec<GlyphInfo>,
    pub metrics: Vec<Metrics>,
}

#[derive(Clone, Copy, Debug, PartialEq, Eq, Structural)]
pub enum TableError {
    /// The curve buffer grew past what a `u32` index can address.
    IndexOverflow,
}

pub open spec fn zero_info() -> GlyphInfo {
    GlyphInfo { start: 0, end: 0 }
}

pub open spec fn zero_metrics() -> Metrics {
    Metrics { advance: 0 }
}

impl Metrics {
    pub fn zero() -> (r: Metrics)
        ensures
            r == zero_metrics(),
    {
        Metrics { advance: 0 }
    }
}

impl GlyphInfo {
    pub fn zero() -> (r: GlyphInfo)
        ensures
            r == zero_info(),
    {
        GlyphInfo { start: 0, end: 0 }
    }
}

/// Combines what the font gives for one glyph: no advance means no glyph
/// data; an outline is normalized against the global box `b`.
pub fn glyph_data(advance: Option<u16>, outline: Option<Outline>, b: &BBox) -> (r: Option<GlyphData>)
    requires
        outline matches Some(o) ==> o.wf(),
    ensures
        r is Some <==> advance is Some,
        r matches Some(d) ==> {
            &&& d.metrics.advance == advance->Some_0
            &&& (d.outline is Some <==> outline is Some)
            &&& d.outline matches Some(o) ==> o@ == normalized(outline->Some_0@, *b)
        },
{
    match advance {
        None => None,
        Some(advance) => {
            let outline = match outline {
                Some(mut o) => {
                    o.process(b);
                    Some(o)
                },
                None => None,
            };
            Some(GlyphData { outline, metrics: Metrics { advance } })
        },
    }
}

/// The font has a glyph for codepoint `u`.
pub open spec fn present(m: Map<u32, GlyphData>, u: u32) -> bool {
    valid_scalar(u) && m.contains_key(u)
}

/// The curves that codepoint `u` adds to the curve buffer.
pub open spec fn glyph_curves(m: Map<u32, GlyphData>, u: u32) -> Seq<Curve> {
    if present(m, u) && m[u].outline is Some {
        m[u].outline->Some_0@
    } else {
        Seq::empty()
    }
}

/// The curve buffer after the codepoints below `n`.
pub open spec fn curves_before(m: Map<u32, GlyphData>, n: int) -> Seq<Curve>
    decreases n,
{
    if n <= 0 {
        Seq::empty()
    } else {
        curves_before(m, n - 1) + glyph_curves(m, (n - 1) as u32)
    }
}

/// The whole curve buffer.
pub open spec fn all_curves(m: Map<u32, GlyphData>) -> Seq<Curve> {
    curves_before(m, CODEPOINT_COUNT as int)
}

/// The info record of `u` before missing glyphs are patched.
pub open spec fn base_info(m: Map<u32, GlyphData>, u: u32) -> GlyphInfo {
    if present(m, u) && m[u].outline is Some {
        GlyphInfo {
            start: curves_before(m, u as int).len() as u32,
            end: curves_before(m, u + 1).len() as u32,
        }
    } else {
        zero_info()
    }
}

/// The metrics record of `u` before missing glyphs are patched.
pub open spec fn base_metrics(m: Map<u32, GlyphData>, u: u32) -> Metrics {
    if present(m, u) {
        m[u].metrics
    } else {
        zero_metrics()
    }
}

/// Codepoint `u` is an alphanumeric scalar value with no glyph in the font.
pub open spec fn takes_fallback(m: Map<u32, GlyphData>, u: u32) -> bool {
    alphanumeric_scalar(u) && !m.contains_key(u)
}

pub open spec fn final_info(m: Map<u32, GlyphData>, u: u32) -> GlyphInfo {
    if takes_fallback(m, u) {
        base_info(m, REPLACEMENT_CHARACTER)
    } else {
        base_info(m, u)
    }
}

pub open spec fn final_metrics(m: Map<u32, GlyphData>, u: u32) -> Metrics {
    if takes_fallback(m, u) {
        base_metrics(m, REPLACEMENT_CHARACTER)
    } else {
        base_metrics(m, u)
    }
}

fn is_scalar(u: u32) -> (r: bool)
    ensures
        r == valid_scalar(u),
{
    u < CODEPOINT_COUNT && (u < 0xD800 || u > 0xDFFF)
}

/// Appends `cs` to `buf`.
fn append_curves(buf: &mut Vec<Curve>, cs: &Vec<Curve>)
    ensures
        final(buf)@ == old(buf)@ + cs@,
{
    let mut k: usize = 0;
    while k < cs.len()
        invariant
            k <= cs@.len(),
            buf@ == old(buf)@ + cs@.take(k as int),
        decreases cs@.len() - k,
    {
        buf.push(cs[k]);
        k = k + 1;
        assert(buf@ =~= old(buf)@ + cs@.take(k as int));
    }
    assert(cs@.take(cs@.len() as int) =~= cs@);
}

/// Builds the dense tables from the glyphs the font has, keyed by codepoint.
/// Codepoints are taken in ascending order; an alphanumeric codepoint without
/// a glyph gets the replacement character's records.
pub fn assemble(glyphs: &HashMap<u32, GlyphData>) -> (r: Result<GlyphTables, TableError>)
    ensures
        r is Err <==> all_curves(glyphs@).len() > u32::MAX,
        r matches Err(e) ==> e == TableError::IndexOverflow,
        r matches Ok(t) ==> {
            &&& t.curves@ == all_curves(glyphs@)
            &&& t.infos@.len() == CODEPOINT_COUNT
            &&& t.metrics@.len() == CODEPOINT_COUNT
            &&& forall|u: int|
                0 <= u < CODEPOINT_COUNT ==> #[trigger] t.infos@[u] == final_info(glyphs@, u as u32)
            &&& forall|u: int|
                0 <= u < CODEPOINT_COUNT ==> #[trigger] t.metrics@[u] == final_metrics(glyphs@, u as u32)
        },
{
    let ghost m = glyphs@;
    let mut curves: Vec<Curve> = Vec::new();
    let mut infos: Vec<GlyphInfo> = Vec::new();
    let mut metrics: Vec<Metrics> = Vec::new();
    let mut replace: Vec<bool> = Vec::new();
    let mut u: u32 = 0;
    while u < CODEPOINT_COUNT
        invariant
            u <= CODEPOINT_COUNT,
            m == glyphs@,
            curves@ == curves_before(m, u as int),
            curves@.len() <= u32::MAX,
            infos@.len() == u,
            metrics@.len() == u,
            replace@.len() == u,
            forall|j: int| 0 <= j < u ==> #[trigger] infos@[j] == base_info(m, j as u32),
            forall|j: int| 0 <= j < u ==> #[trigger] metrics@[j] == base_metrics(m, j as u32),
            forall|j: int| 0 <= j < u ==> #[trigger] replace@[j] == takes_fallback(m, j as u32),
        decreases CODEPOINT_COUNT - u,
    {
        let mut info = GlyphInfo::zero();
        let mut met = Metrics::zero();
        let mut fallback = false;
        if is_scalar(u) {
            match glyphs.get(&u) {
                Some(d) => {
                    assert(m[u] == *d);
                    match &d.outline {
                        Some(o) => {
                            let cs = o.curves();
                            let start = curves.len();
                            if cs.len() > u32::MAX as usize - start {
                                proof {
                                    assert(curves_before(m, u + 1) == curves_before(m, u as int) + cs@);
                                    lemma_curves_before_prefix(m, u + 1, CODEPOINT_COUNT as int);
                                }
                                return Err(TableError::IndexOverflow);
                            }
                            append_curves(&mut curves, cs);
                            info = GlyphInfo { start: start as u32, end: (start + cs.len()) as u32 };
                            assert(curves_before(m, u + 1) == curves_before(m, u as int) + cs@);
                        },
                        None => {
                            assert(base_info(m, u) == zero_info());
                        },
                    }
                    met = d.metrics;
                },
                None => {
                    assert(!m.contains_key(u));
                    fallback = classify(u);
                },
            }
        } else {
            assert(!alphanumeric_scalar(u));
        }
        assert(curves@ == curves_before(m, u + 1));
        assert(info == base_info(m, u));
        assert(met == base_metrics(m, u));
        assert(fallback == takes_fallback(m, u));
        infos.push(info);
        metrics.push(met);
        replace.push(fallback);
        u = u + 1;
    }
    let rep = REPLACEMENT_CHARACTER as usize;
    assert(rep < CODEPOINT_COUNT && rep as u32 == REPLACEMENT_CHARACTER);
    let mut i: usize = 0;
    while i < replace.len()
        invariant
            m == glyphs@,
            rep < CODEPOINT_COUNT,
            rep as u32 == REPLACEMENT_CHARACTER,
            replace@.len() == CODEPOINT_COUNT,
            infos@.len() == CODEPOINT_COUNT,
            metrics@.len() == CODEPOINT_COUNT,
            i <= CODEPOINT_COUNT,
            forall|j: int| 0 <= j < CODEPOINT_COUNT ==> #[trigger] replace@[j] == takes_fallback(m, j as u32),
            forall|j: int| 0 <= j < i ==> #[trigger] infos@[j] == final_info(m, j as u32),
            forall|j: int| 0 <= j < i ==> #[trigger] metrics@[j] == final_metrics(m, j as u32),
            forall|j: int| i <= j < CODEPOINT_COUNT ==> #[trigger] infos@[j] == base_info(m, j as u32),
            forall|j: int|
                i <= j < CODEPOINT_COUNT ==> #[trigger] metrics@[j] == base_metrics(m, j as u32),
        decreases CODEPOINT_COUNT - i,
    {
        assert(infos@[rep as int] == base_info(m, REPLACEMENT_CHARACTER) && metrics@[rep as int]
            == base_metrics(m, REPLACEMENT_CHARACTER)) by {
            if rep < i {
                assert(infos@[rep as int] == final_info(m, REPLACEMENT_CHARACTER));
                assert(metrics@[rep as int] == final_metrics(m, REPLACEMENT_CHARACTER));
            } else {
                assert(infos@[rep as int] == base_info(m, REPLACEMENT_CHARACTER));
                assert(metrics@[rep as int] == base_metrics(m, REPLACEMENT_CHARACTER));
            }
        }
        if replace[i] {
            let ri = infos[rep];
            let rm = metrics[rep];
            infos.set(i, ri);
            metrics.set(i, rm);
        }
        assert(infos@[i as int] == final_info(m, i as u32));
        assert(metrics@[i as int] == final_metrics(m, i as u32));
        i = i + 1;
    }
    Ok(GlyphTables { curves, infos, metrics })
}

/// An alphanumeric codepoint with no glyph ends up with exactly the
/// replacement character's records.
pub proof fn lemma_fallback_copies_replacement(m: Map<u32, GlyphData>, u: u32)
    requires
        alphanumeric_scalar(u),
        !m.contains_key(u),
    ensures
        final_info(m, u) == final_info(m, REPLACEMENT_CHARACTER),
        final_metrics(m, u) == final_metrics(m, REPLACEMENT_CHARACTER),
{
}

/// A scalar value with no glyph that is not alphanumeric stays blank: an
/// empty range and a zero advance.
pub proof fn lemma_missing_symbol_blank(m: Map<u32, GlyphData>, u: u32)
    requires
        valid_scalar(u),
        !m.contains_key(u),
        !alphanumeric_scalar(u),
    ensures
        final_info(m, u) == zero_info(),
        final_metrics(m, u) == zero_metrics(),
{
}

/// Surrogate codepoints always get zeroed records and never the fallback,
/// whatever the glyph map holds.
pub proof fn lemma_surrogates_zeroed(m: Map<u32, GlyphData>, u: u32)
    requires
        0xD800 <= u <= 0xDFFF,
    ensures
        !takes_fallback(m, u),
        final_info(m, u) == zero_info(),
        final_metrics(m, u) == zero_metrics(),
{
}

proof fn lemma_curves_before_prefix(m: Map<u32, GlyphData>, a: int, b: int)
    requires
        a <= b,
    ensures
        curves_before(m, a).len() <= curves_before(m, b).len(),
        curves_before(m, b).take(curves_before(m, a).len() as int) == curves_before(m, a),
    decreases b - a,
{
    if a < b {
        lemma_curves_before_prefix(m, a, b - 1);
        let pa = curves_before(m, a);
        let pb1 = curves_before(m, b - 1);
        assert(curves_before(m, b).take(pb1.len() as int) =~= pb1);
        assert(curves_before(m, b).take(pa.len() as int) =~= pb1.take(pa.len() as int));
    } else {
        assert(curves_before(m, b).take(curves_before(m, a).len() as int) =~= curves_before(m, a));
    }
}

/// A glyph with an outline gets, when every index fits in `u32`, the range of
/// the curve buffer that holds exactly its own curves.
pub proof fn lemma_info_range_holds_glyph(m: Map<u32, GlyphData>, u: u32)
    requires
        present(m, u),
        m[u].outline is Some,
        all_curves(m).len() <= u32::MAX,
    ensures
        base_info(m, u).start <= base_info(m, u).end <= all_curves(m).len(),
        base_info(m, u).end - base_info(m, u).start == glyph_curves(m, u).len(),
        all_curves(m).subrange(base_info(m, u).start as int, base_info(m, u).end as int)
            == glyph_curves(m, u),
{
    lemma_curves_before_prefix(m, u as int, u + 1);
    lemma_curves_before_prefix(m, u + 1, CODEPOINT_COUNT as int);
    let before = curves_before(m, u as int);
    let upto = curves_before(m, u + 1);
    assert(upto == before + glyph_curves(m, u));
    assert(all_curves(m).subrange(before.len() as int, upto.len() as int) =~= glyph_curves(m, u)) by {
        assert(all_curves(m).take(upto.len() as int) == upto);
        assert forall|k: int| 0 <= k < glyph_curves(m, u).len() implies all_curves(m).subrange(
            before.len() as int,
            upto.len() as int,
        )[k] == glyph_curves(m, u)[k] by {
            assert(all_curves(m)[before.len() + k] == all_curves(m).take(upto.len() as int)[before.len() + k]);
        }
    }
}

} // verus!
