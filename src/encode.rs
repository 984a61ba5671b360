use vstd::prelude::*;
use crate::table::GlyphInfo;

verus! {

/// Bytes per record of the curve buffer: six 32-bit coordinates, the flags
/// and padding to 16-byte alignment.
pub const CURVE_STRIDE: usize = 32;

/// Bytes per record of the info buffer: start, end and padding to 16-byte
/// alignment.
pub const INFO_STRIDE: usize = 16;

/// Bytes per record of the metrics buffer: one 32-bit advance.
pub const METRICS_STRIDE: usize = 4;

/// The four bytes of `w`, least significant first.
pub open spec fn le_bytes(w: u32) -> Seq<u8> {
    seq![
        (w % 0x100) as u8,
        (w / 0x100 % 0x100) as u8,
        (w / 0x1_0000 % 0x100) as u8,
        (w / 0x100_0000 % 0x100) as u8,
    ]
}

pub open spec fn words_bytes(ws: Seq<u32>) -> Seq<u8>
    decreases ws.len(),
{
    if ws.len() == 0 {
        Seq::empty()
    } else {
        words_bytes(ws.drop_last()) + le_bytes(ws.last())
    }
}

/// One record: its words in order, then zero bytes up to `stride`.
pub open spec fn record_bytes(ws: Seq<u32>, stride: nat) -> Seq<u8> {
    words_bytes(ws) + Seq::new((stride - 4 * ws.len()) as nat, |k: int| 0u8)
}

/// Records laid out back to back.
pub open spec fn records_bytes(rs: Seq<Seq<u32>>, stride: nat) -> Seq<u8>
    decreases rs.len(),
{
    if rs.len() == 0 {
        Seq::empty()
    } else {
        records_bytes(rs.drop_last(), stride) + record_bytes(rs.last(), stride)
    }
}

pub open spec fn info_words(i: GlyphInfo) -> Seq<u32> {
    seq![i.start, i.end]
}

fn push_word(buf: &mut Vec<u8>, w: u32)
    ensures
        final(buf)@ == old(buf)@ + le_bytes(w),
{
    buf.push((w % 0x100) as u8);
    buf.push((w / 0x100 % 0x100) as u8);
    buf.push((w / 0x1_0000 % 0x100) as u8);
    buf.push((w / 0x100_0000 % 0x100) as u8);
    assert(buf@ =~= old(buf)@ + le_bytes(w));
}

fn push_record(buf: &mut Vec<u8>, ws: &Vec<u32>, stride: usize)
    requires
        4 * ws@.len() <= stride,
    ensures
        final(buf)@ == old(buf)@ + record_bytes(ws@, stride as nat),
{
    let mut k: usize = 0;
    while k < ws.len()
        invariant
            k <= ws@.len(),
            4 * ws@.len() <= stride,
            buf@ == old(buf)@ + words_bytes(ws@.take(k as int)),
        decreases ws@.len() - k,
    {
        proof {
            assert(ws@.take(k + 1).drop_last() =~= ws@.take(k as int));
        }
        push_word(buf, ws[k]);
        k = k + 1;
        assert(buf@ =~= old(buf)@ + words_bytes(ws@.take(k as int)));
    }
    assert(ws@.take(ws@.len() as int) =~= ws@);
    let ghost words = buf@;
    let mut pad: usize = 4 * ws.len();
    while pad < stride
        invariant
            4 * ws@.len() <= pad <= stride,
            buf@ == words + Seq::new((pad - 4 * ws@.len()) as nat, |j: int| 0u8),
        decreases stride - pad,
    {
        buf.push(0u8);
        pad = pad + 1;
        assert(buf@ =~= words + Seq::new((pad - 4 * ws@.len()) as nat, |j: int| 0u8));
    }
    assert(buf@ =~= old(buf)@ + record_bytes(ws@, stride as nat));
}

/// Lays out `records` back to back, each as its words (least significant
/// byte first) padded with zeros to `stride` bytes.
pub fn encode_records(records: &Vec<Vec<u32>>, stride: usize) -> (r: Vec<u8>)
    requires
        forall|i: int| 0 <= i < records@.len() ==> 4 * (#[trigger] records@[i])@.len() <= stride,
    ensures
        r@ == records_bytes(records@.map_values(|ws: Vec<u32>| ws@), stride as nat),
{
    let ghost rs = records@.map_values(|ws: Vec<u32>| ws@);
    let mut out: Vec<u8> = Vec::new();
    let mut i: usize = 0;
    while i < records.len()
        invariant
            i <= records@.len(),
            rs == records@.map_values(|ws: Vec<u32>| ws@),
            forall|j: int| 0 <= j < records@.len() ==> 4 * (#[trigger] records@[j])@.len() <= stride,
            out@ == records_bytes(rs.take(i as int), stride as nat),
        decreases records@.len() - i,
    {
        proof {
            assert(rs.take(i + 1).drop_last() =~= rs.take(i as int));
            assert(rs.take(i + 1).last() == records@[i as int]@);
        }
        push_record(&mut out, &records[i], stride);
        i = i + 1;
    }
    assert(rs.take(records@.len() as int) =~= rs);
    out
}

/// The info buffer: one `INFO_STRIDE`-byte record `(start, end)` per entry.
pub fn encode_infos(infos: &Vec<GlyphInfo>) -> (r: Vec<u8>)
    ensures
        r@ == records_bytes(infos@.map_values(|i: GlyphInfo| info_words(i)), INFO_STRIDE as nat),
{
    let ghost rs = infos@.map_values(|i: GlyphInfo| info_words(i));
    let mut out: Vec<u8> = Vec::new();
    let mut i: usize = 0;
    while i < infos.len()
        invariant
            i <= infos@.len(),
            rs == infos@.map_values(|i: GlyphInfo| info_words(i)),
            out@ == records_bytes(rs.take(i as int), INFO_STRIDE as nat),
        decreases infos@.len() - i,
    {
        proof {
            assert(rs.take(i + 1).drop_last() =~= rs.take(i as int));
        }
        let info = infos[i];
        let ws = vec![info.start, info.end];
        assert(ws@ =~= info_words(info));
        push_record(&mut out, &ws, INFO_STRIDE);
        i = i + 1;
    }
    assert(rs.take(infos@.len() as int) =~= rs);
    out
}

} // verus!
