use vstd::prelude::*;
use crate::boxes::{
    lemma_parse_box_offsets, parse_box, spec_parse_box, GBox, AUXC_4CC, AV1C_4CC, DIMG_4CC,
    IINF_4CC, INFE_4CC, IPCO_4CC, IPMA_4CC, IPRP_4CC, IREF_4CC, ISPE_4CC, META_4CC, PITM_4CC,
    PIXI_4CC, TMAP_4CC,
};
use crate::error::InternalError;
use crate::features::{
    Features, GAcc, InternalChanProp, InternalDimProp, InternalFeatures, InternalProp,
    InternalTile,
    AVIFINFO_MAX_FEATURES, AVIFINFO_MAX_NUM_BOXES, AVIFINFO_MAX_PROPS, AVIFINFO_MAX_TILES,
    AVIFINFO_MAX_VALUE,
};
use crate::resolve::{lemma_gpif_state, spec_gpif};
use crate::stream::{be_val, lemma_be_val_bound, pow256, SModel, Stream};

verus! {

/// How far a box-content loop still has to go: once the cursor is more than
/// eight bytes past the window, the next header read must fail.
pub open spec fn loop_measure(s: Stream) -> int {
    if s.offset <= s.win().len() + 8 {
        s.win().len() + 8 - s.offset
    } else {
        0
    }
}

/// Compares the start of `v` against a full reference string `urn`.
#[verifier::loop_isolation(false)]
fn urn_matches(v: &Vec<u8>, urn: &Vec<u8>) -> (r: bool)
    ensures
        r == (v@.len() >= urn@.len() && v@.subrange(0, urn@.len() as int) == urn@),
{
    if v.len() < urn.len() {
        return false;
    }
    let mut i: usize = 0;
    while i < urn.len()
        invariant
            i <= urn@.len(),
            v@.subrange(0, i as int) == urn@.subrange(0, i as int),
        decreases urn@.len() - i,
    {
        if v[i] != urn[i] {
            proof {
                assert(v@.subrange(0, urn@.len() as int)[i as int] != urn@[i as int]);
            }
            return false;
        }
        proof {
            assert(v@.subrange(0, i + 1) =~= v@.subrange(0, i as int).push(v@[i as int]));
            assert(urn@.subrange(0, i + 1) =~= urn@.subrange(0, i as int).push(urn@[i as int]));
        }
        i = i + 1;
    }
    proof {
        assert(v@.subrange(0, urn@.len() as int) =~= urn@.subrange(0, urn@.len() as int));
        assert(urn@.subrange(0, urn@.len() as int) =~= urn@);
    }
    true
}

/// What one `auxC` payload announced, as far as this parser cares.
pub enum AuxKind {
    /// The payload names the alpha-plane auxiliary type.
    Alpha,
    /// The payload names the Adobe gain map auxiliary type.
    Gainmap,
    /// Anything else.
    Other,
}

/// The auxiliary-type URN that marks an alpha plane, NUL included:
/// `urn:mpeg:mpegB:cicp:systems:auxiliary:alpha`.
pub open spec fn alpha_urn_seq() -> Seq<u8> {
    seq![
        0x75u8, 0x72, 0x6E, 0x3A, 0x6D, 0x70, 0x65, 0x67, 0x3A, 0x6D, 0x70, 0x65, 0x67, 0x42,
        0x3A, 0x63, 0x69, 0x63, 0x70, 0x3A, 0x73, 0x79, 0x73, 0x74, 0x65, 0x6D, 0x73, 0x3A,
        0x61, 0x75, 0x78, 0x69, 0x6C, 0x69, 0x61, 0x72, 0x79, 0x3A, 0x61, 0x6C, 0x70, 0x68,
        0x61, 0x00,
    ]
}

/// The auxiliary-type URN that marks an Adobe-scheme gain map, NUL included:
/// `urn:com:photo:aux:hdrgainmap`.
pub open spec fn gainmap_urn_seq() -> Seq<u8> {
    seq![
        0x75u8, 0x72, 0x6E, 0x3A, 0x63, 0x6F, 0x6D, 0x3A, 0x70, 0x68, 0x6F, 0x74, 0x6F, 0x3A,
        0x61, 0x75, 0x78, 0x3A, 0x68, 0x64, 0x72, 0x67, 0x61, 0x69, 0x6E, 0x6D, 0x61, 0x70,
        0x00,
    ]
}

/// What classifying one `auxC` content of size `cs` at stream state `m`
/// yields, exactly.
pub open spec fn spec_auxc(m: SModel, cs: int) -> Result<AuxKind, InternalError> {
    let n = if cs < 44 {
        cs
    } else {
        44int
    };
    if !m.can_read(n) {
        Err(m.read_err(n))
    } else {
        let head = m.bytes_at(n);
        if n >= 44 && head.subrange(0, 44) == alpha_urn_seq() {
            Ok(AuxKind::Alpha)
        } else if n >= 29 && head.subrange(0, 29) == gainmap_urn_seq() {
            Ok(AuxKind::Gainmap)
        } else {
            Ok(AuxKind::Other)
        }
    }
}

/// Reads the start of one `auxC` content of the given size and classifies
/// its URN: the comparison covers the reference string up to and including
/// its NUL, truncated to the box content. Behaves exactly as `spec_auxc`.
fn parse_auxc(box_stream: &mut Stream, content_size: usize) -> (r: Result<
    AuxKind,
    InternalError,
>)
    ensures
        final(box_stream).same_window(*old(box_stream)),
        r == spec_auxc(old(box_stream).model(), content_size as int),
{
    let alpha = alpha_urn();
    let to_read: usize = if content_size < 44 {
        content_size
    } else {
        44
    };
    let head = match box_stream.read(to_read) {
        Ok(v) => v,
        Err(e) => {
            return Err(e);
        },
    };
    if urn_matches(&head, &alpha) {
        return Ok(AuxKind::Alpha);
    }
    let gainmap = gainmap_urn();
    if urn_matches(&head, &gainmap) {
        return Ok(AuxKind::Gainmap);
    }
    Ok(AuxKind::Other)
}

/// The alpha URN as bytes at run time.
fn alpha_urn() -> (r: Vec<u8>)
    ensures
        r@ == alpha_urn_seq(),
        r@.len() == 44,
{
    proof {
        assert(alpha_urn_seq().len() == 44);
    }
    vec![
        0x75u8, 0x72, 0x6E, 0x3A, 0x6D, 0x70, 0x65, 0x67, 0x3A, 0x6D, 0x70, 0x65, 0x67, 0x42,
        0x3A, 0x63, 0x69, 0x63, 0x70, 0x3A, 0x73, 0x79, 0x73, 0x74, 0x65, 0x6D, 0x73, 0x3A,
        0x61, 0x75, 0x78, 0x69, 0x6C, 0x69, 0x61, 0x72, 0x79, 0x3A, 0x61, 0x6C, 0x70, 0x68,
        0x61, 0x00,
    ]
}

/// The gain map URN as bytes at run time.
fn gainmap_urn() -> (r: Vec<u8>)
    ensures
        r@ == gainmap_urn_seq(),
        r@.len() == 29,
{
    proof {
        assert(gainmap_urn_seq().len() == 29);
    }
    vec![
        0x75u8, 0x72, 0x6E, 0x3A, 0x63, 0x6F, 0x6D, 0x3A, 0x70, 0x68, 0x6F, 0x74, 0x6F, 0x3A,
        0x61, 0x75, 0x78, 0x3A, 0x68, 0x64, 0x72, 0x67, 0x61, 0x69, 0x6E, 0x6D, 0x61, 0x70,
        0x00,
    ]
}

/// What reading one `ispe` content at stream state `m` yields, exactly: a
/// 32-bit width and a 32-bit height, both of which must be nonzero.
pub open spec fn spec_ispe(m: SModel, box_index: u8) -> Result<InternalDimProp, InternalError> {
    if !m.can_read(4) {
        Err(m.read_err(4))
    } else if !m.advance(4).can_read(4) {
        Err(m.advance(4).read_err(4))
    } else if be_val(m.bytes_at(4)) == 0 || be_val(m.advance(4).bytes_at(4)) == 0 {
        Err(InternalError::Invalid)
    } else {
        Ok(
            InternalDimProp {
                property_index: box_index,
                width: be_val(m.bytes_at(4)) as u32,
                height: be_val(m.advance(4).bytes_at(4)) as u32,
            },
        )
    }
}

/// Reads one `ispe` content, behaving exactly as `spec_ispe`; a returned
/// record always carries a nonzero width and height.
fn parse_ispe(box_stream: &mut Stream, box_index: u8) -> (r: Result<
    InternalDimProp,
    InternalError,
>)
    ensures
        final(box_stream).same_window(*old(box_stream)),
        r == spec_ispe(old(box_stream).model(), box_index),
        r matches Ok(dp) ==> dp.width != 0 && dp.height != 0,
{
    let width = match box_stream.read_u32() {
        Ok(v) => v,
        Err(e) => {
            return Err(e);
        },
    };
    let height = match box_stream.read_u32() {
        Ok(v) => v,
        Err(e) => {
            return Err(e);
        },
    };
    if width == 0 || height == 0 {
        return Err(InternalError::Invalid);
    }
    Ok(InternalDimProp { property_index: box_index, width, height })
}

/// What checking the per-channel depth bytes of a `pixi` yields, exactly,
/// starting from channel index `channel` of `c` with expected depth `d` at
/// stream state `m` (whose cursor is past the first two content bytes).
pub open spec fn spec_pixi_depths(m: SModel, c: int, d: int, box_index: u8, channel: int) -> Result<
    InternalChanProp,
    InternalError,
>
    decreases c - channel,
    when 1 <= channel
{
    if channel >= c {
        Ok(InternalChanProp { property_index: box_index, bit_depth: d as u8, num_channels: c as u8 })
    } else if !m.advance(1 + channel).can_read(1) {
        Err(m.advance(1 + channel).read_err(1))
    } else if be_val(m.advance(1 + channel).bytes_at(1)) != d {
        Err(InternalError::Invalid)
    } else {
        spec_pixi_depths(m, c, d, box_index, channel + 1)
    }
}

/// What reading one `pixi` content at stream state `m` yields, exactly: a
/// channel count between 1 and 3, then one bit depth per channel, all
/// nonzero and all equal.
pub open spec fn spec_pixi(m: SModel, box_index: u8) -> Result<InternalChanProp, InternalError> {
    if !m.can_read(1) {
        Err(m.read_err(1))
    } else {
        let c = be_val(m.bytes_at(1));
        if c == 0 || c > 3 {
            Err(InternalError::Invalid)
        } else if !m.advance(1).can_read(1) {
            Err(m.advance(1).read_err(1))
        } else {
            let d = be_val(m.advance(1).bytes_at(1));
            if d == 0 {
                Err(InternalError::Invalid)
            } else {
                spec_pixi_depths(m, c, d, box_index, 1)
            }
        }
    }
}

/// Reads one `pixi` content, behaving exactly as `spec_pixi`; a returned
/// record always carries a nonzero depth and one to three channels.
#[verifier::loop_isolation(false)]
fn parse_pixi(box_stream: &mut Stream, box_index: u8) -> (r: Result<
    InternalChanProp,
    InternalError,
>)
    ensures
        final(box_stream).same_window(*old(box_stream)),
        r == spec_pixi(old(box_stream).model(), box_index),
        r matches Ok(cp) ==> 1 <= cp.num_channels <= 3 && cp.bit_depth != 0,
{
    let ghost m = box_stream.model();
    let num_channels = match box_stream.read_u8() {
        Ok(v) => v,
        Err(e) => {
            return Err(e);
        },
    };
    if num_channels == 0 || num_channels > 3 {
        return Err(InternalError::Invalid);
    }
    let bit_depth = match box_stream.read_u8() {
        Ok(v) => v,
        Err(e) => {
            return Err(e);
        },
    };
    if bit_depth == 0 {
        return Err(InternalError::Invalid);
    }
    let mut channel: u8 = 1;
    while channel < num_channels
        invariant
            1 <= channel <= num_channels,
            box_stream.same_window(*old(box_stream)),
            box_stream.model() == m.advance(1 + channel as int),
            spec_pixi(m, box_index) == spec_pixi_depths(
                m,
                num_channels as int,
                bit_depth as int,
                box_index,
                channel as int,
            ),
        decreases num_channels - channel,
    {
        // Bit depth should be the same for all channels.
        let other = match box_stream.read_u8() {
            Ok(v) => v,
            Err(e) => {
                return Err(e);
            },
        };
        if other != bit_depth {
            return Err(InternalError::Invalid);
        }
        channel = channel + 1;
    }
    Ok(InternalChanProp { property_index: box_index, bit_depth, num_channels })
}

/// The bit depth named by the third byte of an `av1C` configuration.
pub open spec fn av1c_depth(b: u8) -> u8 {
    if b & 0x40 != 0 {
        if b & 0x20 != 0 {
            12
        } else {
            10
        }
    } else {
        8
    }
}

/// The channel count named by the third byte of an `av1C` configuration.
pub open spec fn av1c_channels(b: u8) -> u8 {
    if b & 0x10 != 0 {
        1
    } else {
        3
    }
}

/// What reading one `av1C` content at stream state `m` yields, exactly:
/// two bytes are skipped, the third is decoded, and twelve-bit without
/// high-bit-depth is refused.
pub open spec fn spec_av1c(m: SModel, box_index: u8) -> Result<InternalChanProp, InternalError> {
    if m.offset + 2 > usize::MAX {
        Err(InternalError::Aborted)
    } else if !m.within_size(2) {
        Err(InternalError::Invalid)
    } else if !m.advance(2).can_read(1) {
        Err(m.advance(2).read_err(1))
    } else {
        let b = be_val(m.advance(2).bytes_at(1)) as u8;
        if b & 0x20 != 0 && b & 0x40 == 0 {
            Err(InternalError::Invalid)
        } else {
            Ok(
                InternalChanProp {
                    property_index: box_index,
                    bit_depth: av1c_depth(b),
                    num_channels: av1c_channels(b),
                },
            )
        }
    }
}

/// Reads one `av1C` content, behaving exactly as `spec_av1c`; a returned
/// record always carries a nonzero depth and one or three channels.
fn parse_av1c(box_stream: &mut Stream, box_index: u8) -> (r: Result<
    InternalChanProp,
    InternalError,
>)
    ensures
        final(box_stream).same_window(*old(box_stream)),
        r == spec_av1c(old(box_stream).model(), box_index),
        r matches Ok(cp) ==> 1 <= cp.num_channels <= 3 && cp.bit_depth != 0,
{
    let ghost m = box_stream.model();
    match box_stream.skip(2) {
        Ok(()) => {},
        Err(e) => {
            return Err(e);
        },
    }
    let config = match box_stream.read_u8() {
        Ok(v) => v,
        Err(e) => {
            return Err(e);
        },
    };
    proof {
        lemma_be_val_bound(m.advance(2).bytes_at(1));
        reveal_with_fuel(pow256, 2);
    }
    let high_bitdepth = (config & 0x40) != 0;
    let twelve_bit = (config & 0x20) != 0;
    let monochrome = (config & 0x10) != 0;
    if twelve_bit && !high_bitdepth {
        return Err(InternalError::Invalid);
    }
    let bit_depth: u8 = if high_bitdepth {
        if twelve_bit {
            12
        } else {
            10
        }
    } else {
        8
    };
    let num_channels: u8 = if monochrome {
        1
    } else {
        3
    };
    Ok(InternalChanProp { property_index: box_index, bit_depth, num_channels })
}

/// What reading one `pitm` content at stream state `m` yields, exactly:
/// the primary item id (two bytes at version 0, four otherwise) and its
/// byte width; an id above 255 is refused.
pub open spec fn spec_pitm(m: SModel, version: u8) -> Result<(u8, u8), InternalError> {
    let k: int = if version == 0 {
        2
    } else {
        4
    };
    if !m.can_read(k) {
        Err(m.read_err(k))
    } else if be_val(m.bytes_at(k)) > 255 {
        Err(InternalError::Aborted)
    } else {
        Ok((be_val(m.bytes_at(k)) as u8, k as u8))
    }
}

/// Reads one `pitm` content, behaving exactly as `spec_pitm`.
fn parse_pitm(box_stream: &mut Stream, version: u8) -> (r: Result<(u8, u8), InternalError>)
    ensures
        final(box_stream).same_window(*old(box_stream)),
        r == spec_pitm(old(box_stream).model(), version),
{
    let num_bytes_per_id: u8 = if version == 0 {
        2
    } else {
        4
    };
    let primary_item_id = match box_stream.read_uint(num_bytes_per_id) {
        Ok(v) => v,
        Err(e) => {
            return Err(e);
        },
    };
    if primary_item_id > AVIFINFO_MAX_VALUE as u32 {
        return Err(InternalError::Aborted);
    }
    Ok((primary_item_id as u8, num_bytes_per_id))
}

/// What reading one `infe` content at stream state `m` yields, exactly:
/// the item id (two bytes at version 2, four otherwise), a skipped
/// protection index, and the item type.
pub open spec fn spec_infe(m: SModel, version: u8) -> Result<(u32, u32), InternalError> {
    let k: int = if version == 2 {
        2
    } else {
        4
    };
    if !m.can_read(k) {
        Err(m.read_err(k))
    } else if m.advance(k).offset + 2 > usize::MAX {
        Err(InternalError::Aborted)
    } else if !m.advance(k).within_size(2) {
        Err(InternalError::Invalid)
    } else if !m.advance(k + 2).can_read(4) {
        Err(m.advance(k + 2).read_err(4))
    } else {
        Ok(
            (
                be_val(m.bytes_at(k)) as u32,
                be_val(m.advance(k + 2).bytes_at(4)) as u32,
            ),
        )
    }
}

/// Reads one `infe` content, behaving exactly as `spec_infe`.
fn parse_infe(box_stream: &mut Stream, version: u8) -> (r: Result<(u32, u32), InternalError>)
    ensures
        final(box_stream).same_window(*old(box_stream)),
        r == spec_infe(old(box_stream).model(), version),
{
    let num_bytes_per_id: u8 = if version == 2 {
        2
    } else {
        4
    };
    let item_id = match box_stream.read_uint(num_bytes_per_id) {
        Ok(v) => v,
        Err(e) => {
            return Err(e);
        },
    };
    // Skip item_protection_index.
    match box_stream.skip(2) {
        Ok(()) => {},
        Err(e) => {
            return Err(e);
        },
    }
    let item_type = match box_stream.read_4cc() {
        Ok(v) => v,
        Err(e) => {
            return Err(e);
        },
    };
    Ok((item_id, item_type))
}

/// The complete outcome of one driver: result, accumulator, box counter.
pub ghost struct GStep {
    pub res: Result<(), InternalError>,
    pub fx: GAcc,
    pub nb: int,
}

/// The outcome of a record-reading loop that does not parse boxes.
pub ghost struct GLoop {
    pub res: Result<(), InternalError>,
    pub fx: GAcc,
}

/// The outcome of one `ipma` association walk: `completed` tells whether
/// the announced count was fully consumed.
pub ghost struct GAssoc {
    pub res: Result<(), InternalError>,
    pub fx: GAcc,
    pub completed: bool,
}

/// The outcome of reading one box header and carving its content window:
/// the header, the content substream, the parent stream past the box, the
/// counter, and where the content starts.
pub ghost struct GOpen {
    pub res: Result<GBox, InternalError>,
    pub sub: SModel,
    pub next: SModel,
    pub nb: int,
    pub header_end: int,
}

/// What reading one box header at `m` and carving its content yields.
pub open spec fn spec_open_box(m: SModel, nesting_level: u32, nb: int) -> GOpen {
    let g = spec_parse_box(m, nesting_level, nb);
    match g.res {
        Err(e) => GOpen { res: Err(e), sub: m, next: m, nb: g.boxes, header_end: 0 },
        Ok(b) => {
            let m1 = m.with_offset(g.offset);
            let t = m1.transferred_i(b.content_size);
            if m1.offset + t > usize::MAX {
                GOpen {
                    res: Err(InternalError::Aborted),
                    sub: m1,
                    next: m1,
                    nb: g.boxes,
                    header_end: g.offset,
                }
            } else if !m1.within_size(t) {
                GOpen {
                    res: Err(InternalError::Invalid),
                    sub: m1,
                    next: m1,
                    nb: g.boxes,
                    header_end: g.offset,
                }
            } else {
                GOpen {
                    res: Ok(b),
                    sub: m1.sub_i(b.content_size),
                    next: m1.advance(t),
                    nb: g.boxes,
                    header_end: g.offset,
                }
            }
        },
    }
}

/// Opening a box successfully consumes at least its eight header bytes, so
/// the walk makes progress; a box below the top level is counted once.
pub proof fn lemma_open_box(m: SModel, nesting_level: u32, nb: int)
    ensures
        ({
            let o = spec_open_box(m, nesting_level, nb);
            o.res is Ok ==> {
                &&& m.progress_left() > o.next.progress_left()
                &&& m.offset + 8 <= o.next.offset
                &&& (nesting_level != 0 ==> o.nb == nb + 1)
                &&& nb <= o.nb <= nb + 1
            }
        }),
{
    lemma_parse_box_offsets(m, nesting_level, nb);
}

/// Has this stream reached its declared end?
pub open spec fn spec_more(m: SModel) -> bool {
    match m.size {
        Some(s) => m.offset < s,
        None => true,
    }
}

/// What one recognized `ipco` child does to the accumulator: the leaf
/// record is appended under the 8-record caps, an overflowing append or an
/// `auxC` mark is latched, and anything unrecognized is ignored.
pub open spec fn spec_ipco_leaf(sub: SModel, fx: GAcc, b: GBox, box_index: int) -> Result<
    GAcc,
    InternalError,
> {
    if b.box_type == ISPE_4CC {
        match spec_ispe(sub, box_index as u8) {
            Err(e) => Err(e),
            Ok(dp) => Ok(
                if fx.dim_props.len() < AVIFINFO_MAX_FEATURES {
                    GAcc { dim_props: fx.dim_props.push(dp), ..fx }
                } else {
                    GAcc { data_was_skipped: true, ..fx }
                },
            ),
        }
    } else if b.box_type == PIXI_4CC {
        match spec_pixi(sub, box_index as u8) {
            Err(e) => Err(e),
            Ok(cp) => Ok(
                if fx.chan_props.len() < AVIFINFO_MAX_FEATURES {
                    GAcc { chan_props: fx.chan_props.push(cp), ..fx }
                } else {
                    GAcc { data_was_skipped: true, ..fx }
                },
            ),
        }
    } else if b.box_type == AV1C_4CC {
        match spec_av1c(sub, box_index as u8) {
            Err(e) => Err(e),
            Ok(cp) => Ok(
                if fx.chan_props.len() < AVIFINFO_MAX_FEATURES {
                    GAcc { chan_props: fx.chan_props.push(cp), ..fx }
                } else {
                    GAcc { data_was_skipped: true, ..fx }
                },
            ),
        }
    } else if b.box_type == AUXC_4CC {
        match b.content_size {
            None => Err(InternalError::Invalid),
            Some(cs) => match spec_auxc(sub, cs) {
                Err(e) => Err(e),
                Ok(kind) => Ok(
                    match kind {
                        AuxKind::Alpha => GAcc { has_alpha: true, ..fx },
                        AuxKind::Gainmap => GAcc { gainmap_property_index: box_index as u8, ..fx },
                        AuxKind::Other => fx,
                    },
                ),
            },
        }
    } else {
        Ok(fx)
    }
}

/// Exactly what walking `ipco` content at `m` does, from property index
/// `box_index` on: each child is numbered by physical position and handled
/// by `spec_ipco_leaf`; the 256th property latches the skip flag and stops.
pub open spec fn spec_parse_ipco(
    m: SModel,
    fx: GAcc,
    nesting_level: u32,
    nb: int,
    box_index: int,
) -> GStep
    decreases m.progress_left(),
    via spec_parse_ipco_dec
{
    if !spec_more(m) {
        GStep { res: Err(InternalError::NotFound), fx, nb }
    } else {
        let o = spec_open_box(m, nesting_level, nb);
        match o.res {
            Err(e) => GStep { res: Err(e), fx, nb: o.nb },
            Ok(b) => match spec_ipco_leaf(o.sub, fx, b, box_index) {
                Err(e) => GStep { res: Err(e), fx, nb: o.nb },
                Ok(fx1) => if box_index == AVIFINFO_MAX_VALUE as int {
                    GStep {
                        res: Err(InternalError::NotFound),
                        fx: GAcc { data_was_skipped: true, ..fx1 },
                        nb: o.nb,
                    }
                } else {
                    spec_parse_ipco(o.next, fx1, nesting_level, o.nb, box_index + 1)
                },
            },
        }
    }
}

#[via_fn]
proof fn spec_parse_ipco_dec(m: SModel, fx: GAcc, nesting_level: u32, nb: int, box_index: int) {
    lemma_open_box(m, nesting_level, nb);
}

/// Exactly what reading the associations of one `ipma` entry at `ms` does,
/// from position `property` of `count` on: each value is read at the
/// flag-selected width, the essential bit is discarded, and values or ids
/// above 255 and entries past the record cap are skipped with the latch.
pub open spec fn spec_ipma_assocs(
    ms: SModel,
    fx: GAcc,
    item_id: int,
    w_idx: int,
    mask: u32,
    count: int,
    property: int,
) -> GAssoc
    decreases count - property,
    when 0 <= property
{
    if property >= count {
        GAssoc { res: Ok(()), fx, completed: true }
    } else if property >= AVIFINFO_MAX_PROPS as int || fx.props.len() >= AVIFINFO_MAX_PROPS {
        GAssoc { res: Ok(()), fx: GAcc { data_was_skipped: true, ..fx }, completed: false }
    } else if !ms.can_read(w_idx) {
        GAssoc { res: Err(ms.read_err(w_idx)), fx, completed: false }
    } else {
        let value = be_val(ms.bytes_at(w_idx)) as u32;
        let property_index = value & (!mask);
        let fx1 = if property_index <= AVIFINFO_MAX_VALUE as u32 && item_id <= AVIFINFO_MAX_VALUE
            as int {
            GAcc {
                props: fx.props.push(
                    InternalProp { property_index: property_index as u8, item_id: item_id as u8 },
                ),
                ..fx
            }
        } else {
            GAcc { data_was_skipped: true, ..fx }
        };
        spec_ipma_assocs(ms.advance(w_idx), fx1, item_id, w_idx, mask, count, property + 1)
    }
}

/// Exactly what reading the entries of one `ipma` at `ms` does, from entry
/// `entry` of `entry_count` on: item ids at the version-selected width,
/// then the announced associations; hitting any cap stops the walk with the
/// skip latch, and an incompletely read entry is not followed by another.
pub open spec fn spec_ipma_entries(
    ms: SModel,
    fx: GAcc,
    entry_count: int,
    w_id: int,
    w_idx: int,
    mask: u32,
    entry: int,
) -> GLoop
    decreases entry_count - entry,
    when 0 <= entry
{
    if entry >= entry_count {
        GLoop { res: Ok(()), fx }
    } else if entry >= AVIFINFO_MAX_PROPS as int || fx.props.len() >= AVIFINFO_MAX_PROPS {
        GLoop { res: Ok(()), fx: GAcc { data_was_skipped: true, ..fx } }
    } else if !ms.can_read(w_id) {
        GLoop { res: Err(ms.read_err(w_id)), fx }
    } else {
        let item_id = be_val(ms.bytes_at(w_id));
        let ms1 = ms.advance(w_id);
        if !ms1.can_read(1) {
            GLoop { res: Err(ms1.read_err(1)), fx }
        } else {
            let association_count = be_val(ms1.bytes_at(1));
            let ms2 = ms1.advance(1);
            let a = spec_ipma_assocs(ms2, fx, item_id, w_idx, mask, association_count, 0);
            match a.res {
                Err(e) => GLoop { res: Err(e), fx: a.fx },
                Ok(()) => if a.completed {
                    spec_ipma_entries(
                        ms2.advance(association_count * w_idx),
                        a.fx,
                        entry_count,
                        w_id,
                        w_idx,
                        mask,
                        entry + 1,
                    )
                } else {
                    GLoop { res: Ok(()), fx: a.fx }
                },
            }
        }
    }
}

/// Exactly what walking `iprp` content at `m` does: `ipco` children are
/// parsed for properties, `ipma` children for associations, and after each
/// complete `ipma` a resolution attempt may end the walk.
pub open spec fn spec_parse_iprp(m: SModel, fx: GAcc, nesting_level: u32, nb: int) -> GStep
    decreases m.progress_left(),
    via spec_parse_iprp_dec
{
    if !spec_more(m) {
        GStep { res: Err(InternalError::NotFound), fx, nb }
    } else {
        let o = spec_open_box(m, nesting_level, nb);
        match o.res {
            Err(e) => GStep { res: Err(e), fx, nb: o.nb },
            Ok(b) => if b.box_type == IPCO_4CC {
                let g1 = spec_parse_ipco(o.sub, fx, (nesting_level + 1) as u32, o.nb, 1);
                match g1.res {
                    Ok(()) => GStep { res: Ok(()), fx: g1.fx, nb: g1.nb },
                    Err(e) => if e == InternalError::NotFound {
                        spec_parse_iprp(o.next, g1.fx, nesting_level, g1.nb)
                    } else {
                        GStep { res: Err(e), fx: g1.fx, nb: g1.nb }
                    },
                }
            } else if b.box_type == IPMA_4CC {
                if !o.sub.can_read(4) {
                    GStep { res: Err(o.sub.read_err(4)), fx, nb: o.nb }
                } else {
                    let entry_count = be_val(o.sub.bytes_at(4));
                    let w_id: int = if b.version < 1 {
                        2
                    } else {
                        4
                    };
                    let w_idx: int = if b.flags & 1 != 0 {
                        2
                    } else {
                        1
                    };
                    let mask: u32 = if b.flags & 1 != 0 {
                        0x8000
                    } else {
                        0x80
                    };
                    let e1 = spec_ipma_entries(
                        o.sub.advance(4),
                        fx,
                        entry_count,
                        w_id,
                        w_idx,
                        mask,
                        0,
                    );
                    match e1.res {
                        Err(e) => GStep { res: Err(e), fx: e1.fx, nb: o.nb },
                        Ok(()) => {
                            let r0 = spec_gpif(e1.fx);
                            let fx2 = GAcc { primary_item_features: r0.1, ..e1.fx };
                            if r0.0 {
                                GStep { res: Ok(()), fx: fx2, nb: o.nb }
                            } else {
                                spec_parse_iprp(o.next, fx2, nesting_level, o.nb)
                            }
                        },
                    }
                }
            } else {
                spec_parse_iprp(o.next, fx, nesting_level, o.nb)
            },
        }
    }
}

#[via_fn]
proof fn spec_parse_iprp_dec(m: SModel, fx: GAcc, nesting_level: u32, nb: int) {
    lemma_open_box(m, nesting_level, nb);
}

/// Exactly what reading the references of one `dimg` at `ms` does, from
/// position `i` of `count` on: ids above 255 and references past the
/// 16-tile cap are skipped with the latch.
pub open spec fn spec_dimg_refs(
    ms: SModel,
    fx: GAcc,
    from_item_id: int,
    w: int,
    count: int,
    i: int,
) -> GLoop
    decreases count - i,
    when 0 <= i
{
    if i >= count {
        GLoop { res: Ok(()), fx }
    } else if i >= AVIFINFO_MAX_TILES as int {
        GLoop { res: Ok(()), fx: GAcc { data_was_skipped: true, ..fx } }
    } else if !ms.can_read(w) {
        GLoop { res: Err(ms.read_err(w)), fx }
    } else {
        let to_item_id = be_val(ms.bytes_at(w));
        let fx1 = if from_item_id <= AVIFINFO_MAX_VALUE as int && to_item_id <= AVIFINFO_MAX_VALUE
            as int && fx.tiles.len() < AVIFINFO_MAX_TILES {
            GAcc {
                tiles: fx.tiles.push(
                    InternalTile {
                        tile_item_id: to_item_id as u8,
                        parent_item_id: from_item_id as u8,
                        dimg_idx: i as u8,
                    },
                ),
                ..fx
            }
        } else {
            GAcc { data_was_skipped: true, ..fx }
        };
        spec_dimg_refs(ms.advance(w), fx1, from_item_id, w, count, i + 1)
    }
}

/// Exactly what walking `iref` content at `m` does once the flag is set:
/// each `dimg` child contributes tile references and is followed by a
/// resolution attempt that may end the walk.
pub open spec fn spec_iref_loop(m: SModel, fx: GAcc, nesting_level: u32, nb: int) -> GStep
    decreases m.progress_left(),
    via spec_iref_loop_dec
{
    if !spec_more(m) {
        GStep { res: Err(InternalError::NotFound), fx, nb }
    } else {
        let o = spec_open_box(m, nesting_level, nb);
        match o.res {
            Err(e) => GStep { res: Err(e), fx, nb: o.nb },
            Ok(b) => if b.box_type == DIMG_4CC {
                let w: int = if b.version == 0 {
                    2
                } else {
                    4
                };
                if !o.sub.can_read(w) {
                    GStep { res: Err(o.sub.read_err(w)), fx, nb: o.nb }
                } else {
                    let from_item_id = be_val(o.sub.bytes_at(w));
                    let ms1 = o.sub.advance(w);
                    if !ms1.can_read(2) {
                        GStep { res: Err(ms1.read_err(2)), fx, nb: o.nb }
                    } else {
                        let reference_count = be_val(ms1.bytes_at(2));
                        let a = spec_dimg_refs(
                            ms1.advance(2),
                            fx,
                            from_item_id,
                            w,
                            reference_count,
                            0,
                        );
                        match a.res {
                            Err(e) => GStep { res: Err(e), fx: a.fx, nb: o.nb },
                            Ok(()) => {
                                let r0 = spec_gpif(a.fx);
                                let fx2 = GAcc { primary_item_features: r0.1, ..a.fx };
                                if r0.0 {
                                    GStep { res: Ok(()), fx: fx2, nb: o.nb }
                                } else {
                                    spec_iref_loop(o.next, fx2, nesting_level, o.nb)
                                }
                            },
                        }
                    }
                }
            } else {
                spec_iref_loop(o.next, fx, nesting_level, o.nb)
            },
        }
    }
}

#[via_fn]
proof fn spec_iref_loop_dec(m: SModel, fx: GAcc, nesting_level: u32, nb: int) {
    lemma_open_box(m, nesting_level, nb);
}

/// Exactly what parsing `iref` content at `m` does: the flag flips, then
/// the `dimg` children are walked.
pub open spec fn spec_parse_iref(m: SModel, fx: GAcc, nesting_level: u32, nb: int) -> GStep {
    spec_iref_loop(m, GAcc { iref_parsed: true, ..fx }, nesting_level, nb)
}

/// Exactly what walking the announced `iinf` entries at `m` does: a `tmap`
/// `infe` records the tone-mapped item id (ids above 255 are skipped with
/// the latch), and the walk stops silently when the stream ends early.
pub open spec fn spec_iinf_loop(
    m: SModel,
    fx: GAcc,
    nesting_level: u32,
    nb: int,
    entry: int,
    entry_count: int,
) -> GStep
    decreases m.progress_left(),
    via spec_iinf_loop_dec
{
    if entry >= entry_count {
        GStep { res: Err(InternalError::NotFound), fx, nb }
    } else {
        let o = spec_open_box(m, nesting_level, nb);
        match o.res {
            Err(e) => GStep { res: Err(e), fx, nb: o.nb },
            Ok(b) => if b.box_type == INFE_4CC {
                match spec_infe(o.sub, b.version) {
                    Err(e) => GStep { res: Err(e), fx, nb: o.nb },
                    Ok(v) => {
                        let fx1 = if v.1 == TMAP_4CC {
                            if v.0 <= AVIFINFO_MAX_VALUE as u32 {
                                GAcc { tone_mapped_item_id: v.0 as u8, ..fx }
                            } else {
                                GAcc { data_was_skipped: true, ..fx }
                            }
                        } else {
                            fx
                        };
                        if !spec_more(o.next) {
                            GStep { res: Err(InternalError::NotFound), fx: fx1, nb: o.nb }
                        } else {
                            spec_iinf_loop(o.next, fx1, nesting_level, o.nb, entry + 1, entry_count)
                        }
                    },
                }
            } else {
                if !spec_more(o.next) {
                    GStep { res: Err(InternalError::NotFound), fx, nb: o.nb }
                } else {
                    spec_iinf_loop(o.next, fx, nesting_level, o.nb, entry + 1, entry_count)
                }
            },
        }
    }
}

#[via_fn]
proof fn spec_iinf_loop_dec(
    m: SModel,
    fx: GAcc,
    nesting_level: u32,
    nb: int,
    entry: int,
    entry_count: int,
) {
    lemma_open_box(m, nesting_level, nb);
}

/// Exactly what parsing `iinf` content at `m` does: the flag flips, the
/// entry count is read at the version-selected width, and the entries are
/// walked.
pub open spec fn spec_parse_iinf(
    m: SModel,
    fx: GAcc,
    nesting_level: u32,
    box_version: u8,
    nb: int,
) -> GStep {
    let fx0 = GAcc { iinf_parsed: true, ..fx };
    let w: int = if box_version == 0 {
        2
    } else {
        4
    };
    if !m.can_read(w) {
        GStep { res: Err(m.read_err(w)), fx: fx0, nb }
    } else {
        spec_iinf_loop(m.advance(w), fx0, nesting_level, nb, 0, be_val(m.bytes_at(w)))
    }
}

/// Exactly what walking `meta` content at `m` does: `pitm` records the
/// primary item id and the absolute location of its id field, `iprp`,
/// `iref` and `iinf` are recursed into until resolution succeeds, and at
/// the end of `meta` the outcome is Aborted exactly when data was skipped.
pub open spec fn spec_parse_meta(
    m: SModel,
    fx: GAcc,
    nesting_level: u32,
    stream_offset: int,
    nb: int,
) -> GStep
    decreases m.progress_left(),
    via spec_parse_meta_dec
{
    if !spec_more(m) {
        GStep {
            res: Err(
                if fx.data_was_skipped {
                    InternalError::Aborted
                } else {
                    InternalError::Invalid
                },
            ),
            fx,
            nb,
        }
    } else {
        let o = spec_open_box(m, nesting_level, nb);
        match o.res {
            Err(e) => GStep { res: Err(e), fx, nb: o.nb },
            Ok(b) => if b.box_type == PITM_4CC {
                if o.header_end > usize::MAX - stream_offset {
                    GStep { res: Err(InternalError::Aborted), fx, nb: o.nb }
                } else {
                    match spec_pitm(o.sub, b.version) {
                        Err(e) => GStep { res: Err(e), fx, nb: o.nb },
                        Ok(v) => spec_parse_meta(
                            o.next,
                            GAcc {
                                has_primary_item: true,
                                primary_item_id: v.0,
                                primary_item_features: Features {
                                    primary_item_id_location: (stream_offset + o.header_end)
                                        as usize,
                                    primary_item_id_bytes: v.1,
                                    ..fx.primary_item_features
                                },
                                ..fx
                            },
                            nesting_level,
                            stream_offset,
                            o.nb,
                        ),
                    }
                }
            } else if b.box_type == IPRP_4CC {
                let g1 = spec_parse_iprp(o.sub, fx, (nesting_level + 1) as u32, o.nb);
                match g1.res {
                    Ok(()) => GStep { res: Ok(()), fx: g1.fx, nb: g1.nb },
                    Err(e) => if e == InternalError::NotFound {
                        spec_parse_meta(o.next, g1.fx, nesting_level, stream_offset, g1.nb)
                    } else {
                        GStep { res: Err(e), fx: g1.fx, nb: g1.nb }
                    },
                }
            } else if b.box_type == IREF_4CC {
                let g1 = spec_parse_iref(o.sub, fx, (nesting_level + 1) as u32, o.nb);
                match g1.res {
                    Ok(()) => GStep { res: Ok(()), fx: g1.fx, nb: g1.nb },
                    Err(e) => if e == InternalError::NotFound {
                        spec_parse_meta(o.next, g1.fx, nesting_level, stream_offset, g1.nb)
                    } else {
                        GStep { res: Err(e), fx: g1.fx, nb: g1.nb }
                    },
                }
            } else if b.box_type == IINF_4CC {
                let g1 = spec_parse_iinf(o.sub, fx, (nesting_level + 1) as u32, b.version, o.nb);
                match g1.res {
                    Ok(()) => GStep { res: Ok(()), fx: g1.fx, nb: g1.nb },
                    Err(e) => if e == InternalError::NotFound {
                        spec_parse_meta(o.next, g1.fx, nesting_level, stream_offset, g1.nb)
                    } else {
                        GStep { res: Err(e), fx: g1.fx, nb: g1.nb }
                    },
                }
            } else {
                spec_parse_meta(o.next, fx, nesting_level, stream_offset, o.nb)
            },
        }
    }
}

#[via_fn]
proof fn spec_parse_meta_dec(
    m: SModel,
    fx: GAcc,
    nesting_level: u32,
    stream_offset: int,
    nb: int,
) {
    lemma_open_box(m, nesting_level, nb);
}

/// Exactly what walking a whole file at `m` does: top-level boxes are read
/// until `meta`, whose content decides the outcome; a non-`meta` top-level
/// box running to the end of the file is invalid.
pub open spec fn spec_parse_file(m: SModel, fx: GAcc, nb: int) -> GStep
    decreases m.progress_left(),
    via spec_parse_file_dec
{
    if !spec_more(m) {
        GStep { res: Err(InternalError::Invalid), fx, nb }
    } else {
        let o = spec_open_box(m, 0, nb);
        match o.res {
            Err(e) => GStep { res: Err(e), fx, nb: o.nb },
            Ok(b) => if b.box_type == META_4CC {
                spec_parse_meta(o.sub, fx, 1, o.header_end, o.nb)
            } else if b.content_size is None {
                GStep { res: Err(InternalError::Invalid), fx, nb: o.nb }
            } else {
                spec_parse_file(o.next, fx, o.nb)
            },
        }
    }
}

#[via_fn]
proof fn spec_parse_file_dec(m: SModel, fx: GAcc, nb: int) {
    lemma_open_box(m, 0, nb);
}

impl InternalFeatures {
    /// Parses the content of an `ipco` box. `ispe` is used for width and
    /// height, `pixi` and `av1C` for bit depth and channel count, and `auxC`
    /// for alpha and for the Adobe-scheme gain map. Properties are numbered
    /// by their physical 1-based position, whatever their type.
    #[verifier::rlimit(100)]
    pub fn parse_ipco(&mut self, nesting_level: u32, stream: &mut Stream, num_parsed_boxes: &mut u32) -> (r: Result<(), InternalError>)
        requires
            old(self).wf(),
            old(stream).wf(),
            *old(num_parsed_boxes) < AVIFINFO_MAX_NUM_BOXES,
            1 <= nesting_level <= 16,
        ensures
            final(stream).same_window(*old(stream)),
            final(self).wf(),
            *old(num_parsed_boxes) <= *final(num_parsed_boxes) <= AVIFINFO_MAX_NUM_BOXES,
            r is Err,
            r == Result::<(), InternalError>::Err(InternalError::NotFound) ==> *final(
                num_parsed_boxes) < AVIFINFO_MAX_NUM_BOXES,
            *final(self) == (InternalFeatures {
                has_alpha: final(self).has_alpha,
                gainmap_property_index: final(self).gainmap_property_index,
                data_was_skipped: final(self).data_was_skipped,
                dim_props: final(self).dim_props,
                chan_props: final(self).chan_props,
                ..*old(self)
            }),
            old(self).data_was_skipped ==> final(self).data_was_skipped,
            ({
                let g = spec_parse_ipco(
                    old(stream).model(),
                    old(self).acc(),
                    nesting_level,
                    *old(num_parsed_boxes) as int,
                    1,
                );
                &&& r == g.res
                &&& final(self).acc() == g.fx
                &&& *final(num_parsed_boxes) as int == g.nb
            }),
    {
        let mut box_index: u8 = 1;
        while stream.has_more_bytes()
            invariant
                self.wf(),
                *old(num_parsed_boxes) <= *num_parsed_boxes < AVIFINFO_MAX_NUM_BOXES,
                stream.same_window(*old(stream)),
                stream.wf(),
                1 <= nesting_level <= 16,
                *self == (InternalFeatures {
                    has_alpha: self.has_alpha,
                    gainmap_property_index: self.gainmap_property_index,
                    data_was_skipped: self.data_was_skipped,
                    dim_props: self.dim_props,
                    chan_props: self.chan_props,
                    ..*old(self)
                }),
                old(self).data_was_skipped ==> self.data_was_skipped,
                1 <= box_index as int <= AVIFINFO_MAX_VALUE as int,
                spec_parse_ipco(
                    old(stream).model(),
                    old(self).acc(),
                    nesting_level,
                    *old(num_parsed_boxes) as int,
                    1,
                ) == spec_parse_ipco(
                    stream.model(),
                    self.acc(),
                    nesting_level,
                    *num_parsed_boxes as int,
                    box_index as int,
                ),
            decreases loop_measure(*stream),
        {
            let ghost m_top = stream.model();
            let ghost fx_top = self.acc();
            let ghost nb_top = *num_parsed_boxes as int;
            let box_features = match parse_box(nesting_level, stream, num_parsed_boxes) {
                Ok(b) => b,
                Err(e) => {
                    return Err(e);
                },
            };
            let mut box_stream = match stream.substream(box_features.content_size) {
                Ok(s) => s,
                Err(e) => {
                    return Err(e);
                },
            };

            if box_features.box_type == ISPE_4CC {
                // See ISO/IEC 23008-12:2017(E) 6.5.3.2
                let dim_prop = match parse_ispe(&mut box_stream, box_index) {
                    Ok(dp) => dp,
                    Err(e) => {
                        return Err(e);
                    },
                };
                if self.dim_props.len() < AVIFINFO_MAX_FEATURES {
                    self.dim_props.push(dim_prop);
                } else {
                    self.data_was_skipped = true;
                }
            } else if box_features.box_type == PIXI_4CC {
                // See ISO/IEC 23008-12:2017(E) 6.5.6.2
                let chan_prop = match parse_pixi(&mut box_stream, box_index) {
                    Ok(cp) => cp,
                    Err(e) => {
                        return Err(e);
                    },
                };
                if self.chan_props.len() < AVIFINFO_MAX_FEATURES {
                    self.chan_props.push(chan_prop);
                } else {
                    self.data_was_skipped = true;
                }
            } else if box_features.box_type == AV1C_4CC {
                // See AV1 Codec ISO Media File Format Binding 2.3.1.
                // Only the third byte is needed; the others are assumed valid.
                let chan_prop = match parse_av1c(&mut box_stream, box_index) {
                    Ok(cp) => cp,
                    Err(e) => {
                        return Err(e);
                    },
                };
                if self.chan_props.len() < AVIFINFO_MAX_FEATURES {
                    self.chan_props.push(chan_prop);
                } else {
                    self.data_was_skipped = true;
                }
            } else if box_features.box_type == AUXC_4CC {
                // See AV1 Image File Format (AVIF) 4, auxiliary images.
                // The payload starts with a NUL-terminated URN, compared up
                // to and including the NUL, truncated to the box content.
                let content_size = match box_features.content_size {
                    Some(cs) => cs,
                    None => {
                        // Below the top level every box has a known content
                        // size, so this arm cannot be reached.
                        proof {
                            assert(false);
                        }
                        return Err(InternalError::Invalid);
                    },
                };
                match parse_auxc(&mut box_stream, content_size) {
                    Ok(AuxKind::Alpha) => {
                        // It is unlikely but possible that this alpha plane
                        // does not belong to the primary item or a tile:
                        // accepted.
                        self.has_alpha = true;
                    },
                    Ok(AuxKind::Gainmap) => {
                        // Same acceptance for the gain map.
                        self.gainmap_property_index = box_index;
                    },
                    Ok(AuxKind::Other) => {},
                    Err(e) => {
                        return Err(e);
                    },
                }
            }

            if box_index == AVIFINFO_MAX_VALUE {
                self.data_was_skipped = true;
                return Err(InternalError::NotFound);
            }
            box_index = box_index + 1;
        }
        Err(InternalError::NotFound)
    }

    /// Reads the associations of one `ipma` entry, behaving exactly as
    /// `spec_ipma_assocs`; the returned flag tells whether the announced
    /// count was fully consumed.
    #[verifier::loop_isolation(false)]
    #[verifier::rlimit(100)]
    fn parse_ipma_assocs(
        &mut self,
        box_stream: &mut Stream,
        item_id: u32,
        index_num_bytes: u8,
        essential_bit_mask: u32,
        association_count: u8,
    ) -> (r: Result<bool, InternalError>)
        requires
            index_num_bytes == 1 || index_num_bytes == 2,
        ensures
            final(box_stream).same_window(*old(box_stream)),
            ({
                let a = spec_ipma_assocs(
                    old(box_stream).model(),
                    old(self).acc(),
                    item_id as int,
                    index_num_bytes as int,
                    essential_bit_mask,
                    association_count as int,
                    0,
                );
                &&& (match r {
                    Ok(completed) => a.res is Ok && completed == a.completed,
                    Err(e) => a.res == Result::<(), InternalError>::Err(e),
                })
                &&& final(self).acc() == a.fx
                &&& (r == Result::<bool, InternalError>::Ok(true) ==> final(box_stream).model()
                    == old(box_stream).model().advance(
                    association_count as int * index_num_bytes as int,
                ))
            }),
            old(self).wf() ==> final(self).wf(),
            *final(self) == (InternalFeatures {
                props: final(self).props,
                data_was_skipped: final(self).data_was_skipped,
                ..*old(self)
            }),
    {
        let count: usize = association_count as usize;
        let mut property: usize = 0;
        while property < count
            invariant
                property <= count,
                box_stream.same_window(*old(box_stream)),
                box_stream.model() == old(box_stream).model().advance(
                    property as int * index_num_bytes as int,
                ),
                spec_ipma_assocs(
                    old(box_stream).model(),
                    old(self).acc(),
                    item_id as int,
                    index_num_bytes as int,
                    essential_bit_mask,
                    association_count as int,
                    0,
                ) == spec_ipma_assocs(
                    box_stream.model(),
                    self.acc(),
                    item_id as int,
                    index_num_bytes as int,
                    essential_bit_mask,
                    association_count as int,
                    property as int,
                ),
                old(self).wf() ==> self.wf(),
                *self == (InternalFeatures {
                    props: self.props,
                    data_was_skipped: self.data_was_skipped,
                    ..*old(self)
                }),
            decreases count - property,
        {
            if property >= AVIFINFO_MAX_PROPS || self.props.len() >= AVIFINFO_MAX_PROPS {
                self.data_was_skipped = true;
                return Ok(false);
            }
            let ghost ms = box_stream.model();
            let value = match box_stream.read_uint(index_num_bytes) {
                Ok(v) => v,
                Err(e) => {
                    return Err(e);
                },
            };
            proof {
                lemma_be_val_bound(ms.bytes_at(index_num_bytes as int));
                crate::stream::lemma_pow256_mono(index_num_bytes as nat, 4);
                reveal_with_fuel(pow256, 5);
                assert((property + 1) as int * index_num_bytes as int == property as int
                    * index_num_bytes as int + index_num_bytes as int) by (nonlinear_arith);
            }
            // The essential bit is discarded; the remaining bits are the
            // property index.
            let property_index = value & (!essential_bit_mask);
            if property_index <= AVIFINFO_MAX_VALUE as u32 && item_id <= AVIFINFO_MAX_VALUE
                as u32 {
                self.props.push(
                    InternalProp { property_index: property_index as u8, item_id: item_id as u8 },
                );
            } else {
                self.data_was_skipped = true;
            }
            property = property + 1;
        }
        Ok(true)
    }

    /// Reads the entries of one `ipma`, behaving exactly as
    /// `spec_ipma_entries`.
    #[verifier::loop_isolation(false)]
    #[verifier::rlimit(100)]
    fn parse_ipma_entries(
        &mut self,
        box_stream: &mut Stream,
        entry_count: u32,
        id_num_bytes: u8,
        index_num_bytes: u8,
        essential_bit_mask: u32,
    ) -> (r: Result<(), InternalError>)
        requires
            id_num_bytes == 2 || id_num_bytes == 4,
            index_num_bytes == 1 || index_num_bytes == 2,
        ensures
            final(box_stream).same_window(*old(box_stream)),
            ({
                let g = spec_ipma_entries(
                    old(box_stream).model(),
                    old(self).acc(),
                    entry_count as int,
                    id_num_bytes as int,
                    index_num_bytes as int,
                    essential_bit_mask,
                    0,
                );
                &&& (match r {
                    Ok(()) => g.res is Ok,
                    Err(e) => g.res == Result::<(), InternalError>::Err(e),
                })
                &&& final(self).acc() == g.fx
            }),
            old(self).wf() ==> final(self).wf(),
            *final(self) == (InternalFeatures {
                props: final(self).props,
                data_was_skipped: final(self).data_was_skipped,
                ..*old(self)
            }),
    {
        let num_entries: usize = entry_count as usize;
        let mut entry: usize = 0;
        while entry < num_entries
            invariant
                entry <= num_entries,
                box_stream.same_window(*old(box_stream)),
                spec_ipma_entries(
                    old(box_stream).model(),
                    old(self).acc(),
                    entry_count as int,
                    id_num_bytes as int,
                    index_num_bytes as int,
                    essential_bit_mask,
                    0,
                ) == spec_ipma_entries(
                    box_stream.model(),
                    self.acc(),
                    entry_count as int,
                    id_num_bytes as int,
                    index_num_bytes as int,
                    essential_bit_mask,
                    entry as int,
                ),
                old(self).wf() ==> self.wf(),
                *self == (InternalFeatures {
                    props: self.props,
                    data_was_skipped: self.data_was_skipped,
                    ..*old(self)
                }),
            decreases num_entries - entry,
        {
            if entry >= AVIFINFO_MAX_PROPS || self.props.len() >= AVIFINFO_MAX_PROPS {
                self.data_was_skipped = true;
                return Ok(());
            }
            let ghost ms = box_stream.model();
            let item_id = match box_stream.read_uint(id_num_bytes) {
                Ok(v) => v,
                Err(e) => {
                    return Err(e);
                },
            };
            proof {
                lemma_be_val_bound(ms.bytes_at(id_num_bytes as int));
                crate::stream::lemma_pow256_mono(id_num_bytes as nat, 4);
                reveal_with_fuel(pow256, 5);
            }
            let association_count = match box_stream.read_u8() {
                Ok(v) => v,
                Err(e) => {
                    return Err(e);
                },
            };
            match self.parse_ipma_assocs(
                box_stream,
                item_id,
                index_num_bytes,
                essential_bit_mask,
                association_count,
            ) {
                Ok(true) => {},
                Ok(false) => {
                    return Ok(());  // Do not read garbage.
                },
                Err(e) => {
                    return Err(e);
                },
            }
            entry = entry + 1;
        }
        Ok(())
    }

    /// Parses the content of an `iprp` box: an `ipco` box holding the
    /// properties, and `ipma` boxes linking them to items. After each
    /// complete `ipma`, resolution is attempted; success ends the walk.
    #[verifier::rlimit(100)]
    pub fn parse_iprp(&mut self, nesting_level: u32, stream: &mut Stream, num_parsed_boxes: &mut u32) -> (r: Result<(), InternalError>)
        requires
            old(self).wf(),
            old(self).pitm_ok(old(stream).orig@),
            old(stream).wf(),
            *old(num_parsed_boxes) < AVIFINFO_MAX_NUM_BOXES,
            1 <= nesting_level <= 15,
        ensures
            final(stream).same_window(*old(stream)),
            *old(num_parsed_boxes) <= *final(num_parsed_boxes) <= AVIFINFO_MAX_NUM_BOXES,
            final(self).pitm_ok(old(stream).orig@),
            r is Ok ==> final(self).resolved_ok(),
            r is Ok ==> exists|fx: GAcc|
                (#[trigger] spec_gpif(fx)).0 && fx.wf() && final(self).acc() == (GAcc {
                    primary_item_features: spec_gpif(fx).1,
                    ..fx
                }),
            !(r is Ok) ==> final(self).wf(),
            r == Result::<(), InternalError>::Err(InternalError::NotFound) ==> *final(
                num_parsed_boxes) < AVIFINFO_MAX_NUM_BOXES,
            ({
                let g = spec_parse_iprp(
                    old(stream).model(),
                    old(self).acc(),
                    nesting_level,
                    *old(num_parsed_boxes) as int,
                );
                &&& r == g.res
                &&& final(self).acc() == g.fx
                &&& *final(num_parsed_boxes) as int == g.nb
            }),
    {
        while stream.has_more_bytes()
            invariant
                self.wf(),
                self.pitm_ok(old(stream).orig@),
                *old(num_parsed_boxes) <= *num_parsed_boxes < AVIFINFO_MAX_NUM_BOXES,
                stream.same_window(*old(stream)),
                stream.wf(),
                1 <= nesting_level <= 15,
                spec_parse_iprp(
                    old(stream).model(),
                    old(self).acc(),
                    nesting_level,
                    *old(num_parsed_boxes) as int,
                ) == spec_parse_iprp(
                    stream.model(),
                    self.acc(),
                    nesting_level,
                    *num_parsed_boxes as int,
                ),
            decreases loop_measure(*stream),
        {
            let box_features = match parse_box(nesting_level, stream, num_parsed_boxes) {
                Ok(b) => b,
                Err(e) => {
                    return Err(e);
                },
            };
            let mut box_stream = match stream.substream(box_features.content_size) {
                Ok(s) => s,
                Err(e) => {
                    return Err(e);
                },
            };

            if box_features.box_type == IPCO_4CC {
                match self.parse_ipco(nesting_level + 1, &mut box_stream, num_parsed_boxes) {
                    Ok(()) => {
                        return Ok(());
                    },
                    Err(InternalError::NotFound) => {},  // Keep searching.
                    Err(error) => {
                        return Err(error);
                    },
                }
            } else if box_features.box_type == IPMA_4CC {
                // See ISO/IEC 23008-12:2017(E) 9.3.2
                let entry_count = match box_stream.read_u32() {
                    Ok(v) => v,
                    Err(e) => {
                        return Err(e);
                    },
                };
                let id_num_bytes: u8 = if box_features.version < 1 {
                    2
                } else {
                    4
                };
                let index_num_bytes: u8 = if box_features.flags & 1 != 0 {
                    2
                } else {
                    1
                };
                let essential_bit_mask: u32 = if box_features.flags & 1 != 0 {
                    0x8000
                } else {
                    0x80
                };
                match self.parse_ipma_entries(
                    &mut box_stream,
                    entry_count,
                    id_num_bytes,
                    index_num_bytes,
                    essential_bit_mask,
                ) {
                    Ok(()) => {},
                    Err(e) => {
                        return Err(e);
                    },
                }

                // If all features are available now, do not look further.
                let ghost fx = self.acc();
                match self.get_primary_item_features() {
                    Ok(()) => {
                        proof {
                            lemma_gpif_state(fx);
                        }
                        return Ok(());
                    },
                    Err(InternalError::NotFound) => {
                        proof {
                            lemma_gpif_state(fx);
                        }
                    },
                    Err(error) => {
                        return Err(error);
                    },
                }
            }
        }
        Err(InternalError::NotFound)
    }

    /// Reads the references of one `dimg`, behaving exactly as
    /// `spec_dimg_refs`.
    #[verifier::loop_isolation(false)]
    #[verifier::rlimit(100)]
    fn parse_dimg_refs(
        &mut self,
        box_stream: &mut Stream,
        from_item_id: u32,
        num_bytes_per_id: u8,
        reference_count: u16,
    ) -> (r: Result<(), InternalError>)
        requires
            num_bytes_per_id == 2 || num_bytes_per_id == 4,
        ensures
            final(box_stream).same_window(*old(box_stream)),
            ({
                let a = spec_dimg_refs(
                    old(box_stream).model(),
                    old(self).acc(),
                    from_item_id as int,
                    num_bytes_per_id as int,
                    reference_count as int,
                    0,
                );
                &&& (match r {
                    Ok(()) => a.res is Ok,
                    Err(e) => a.res == Result::<(), InternalError>::Err(e),
                })
                &&& final(self).acc() == a.fx
            }),
            old(self).wf() ==> final(self).wf(),
            *final(self) == (InternalFeatures {
                tiles: final(self).tiles,
                data_was_skipped: final(self).data_was_skipped,
                ..*old(self)
            }),
    {
        let mut i: u16 = 0;
        while i < reference_count
            invariant
                i <= reference_count,
                box_stream.same_window(*old(box_stream)),
                spec_dimg_refs(
                    old(box_stream).model(),
                    old(self).acc(),
                    from_item_id as int,
                    num_bytes_per_id as int,
                    reference_count as int,
                    0,
                ) == spec_dimg_refs(
                    box_stream.model(),
                    self.acc(),
                    from_item_id as int,
                    num_bytes_per_id as int,
                    reference_count as int,
                    i as int,
                ),
                old(self).wf() ==> self.wf(),
                *self == (InternalFeatures {
                    tiles: self.tiles,
                    data_was_skipped: self.data_was_skipped,
                    ..*old(self)
                }),
            decreases reference_count - i,
        {
            if i as usize >= AVIFINFO_MAX_TILES {
                self.data_was_skipped = true;
                return Ok(());
            }
            let ghost ms = box_stream.model();
            let to_item_id = match box_stream.read_uint(num_bytes_per_id) {
                Ok(v) => v,
                Err(e) => {
                    return Err(e);
                },
            };
            proof {
                lemma_be_val_bound(ms.bytes_at(num_bytes_per_id as int));
                crate::stream::lemma_pow256_mono(num_bytes_per_id as nat, 4);
                reveal_with_fuel(pow256, 5);
            }
            if from_item_id <= AVIFINFO_MAX_VALUE as u32 && to_item_id <= AVIFINFO_MAX_VALUE
                as u32 && self.tiles.len() < AVIFINFO_MAX_TILES {
                self.tiles.push(
                    InternalTile {
                        tile_item_id: to_item_id as u8,
                        parent_item_id: from_item_id as u8,
                        dimg_idx: i as u8,
                    },
                );
            } else {
                self.data_was_skipped = true;
            }
            i = i + 1;
        }
        Ok(())
    }

    /// Parses the content of an `iref` box. The `dimg` children link tiles
    /// to their parent items, which both serves feature resolution and
    /// carries the HEIF-scheme gain map. After each `dimg`, resolution is
    /// attempted; success ends the walk.
    #[verifier::rlimit(100)]
    pub fn parse_iref(&mut self, nesting_level: u32, stream: &mut Stream, num_parsed_boxes: &mut u32) -> (r: Result<(), InternalError>)
        requires
            old(self).wf(),
            old(self).pitm_ok(old(stream).orig@),
            old(stream).wf(),
            *old(num_parsed_boxes) < AVIFINFO_MAX_NUM_BOXES,
            1 <= nesting_level <= 15,
        ensures
            final(stream).same_window(*old(stream)),
            *old(num_parsed_boxes) <= *final(num_parsed_boxes) <= AVIFINFO_MAX_NUM_BOXES,
            final(self).pitm_ok(old(stream).orig@),
            final(self).iref_parsed,
            r is Ok ==> final(self).resolved_ok(),
            r is Ok ==> exists|fx: GAcc|
                (#[trigger] spec_gpif(fx)).0 && fx.wf() && final(self).acc() == (GAcc {
                    primary_item_features: spec_gpif(fx).1,
                    ..fx
                }),
            !(r is Ok) ==> final(self).wf(),
            r == Result::<(), InternalError>::Err(InternalError::NotFound) ==> *final(
                num_parsed_boxes) < AVIFINFO_MAX_NUM_BOXES,
            ({
                let g = spec_parse_iref(
                    old(stream).model(),
                    old(self).acc(),
                    nesting_level,
                    *old(num_parsed_boxes) as int,
                );
                &&& r == g.res
                &&& final(self).acc() == g.fx
                &&& *final(num_parsed_boxes) as int == g.nb
            }),
    {
        self.iref_parsed = true;

        while stream.has_more_bytes()
            invariant
                self.wf(),
                self.pitm_ok(old(stream).orig@),
                self.iref_parsed,
                *old(num_parsed_boxes) <= *num_parsed_boxes < AVIFINFO_MAX_NUM_BOXES,
                stream.same_window(*old(stream)),
                stream.wf(),
                spec_parse_iref(
                    old(stream).model(),
                    old(self).acc(),
                    nesting_level,
                    *old(num_parsed_boxes) as int,
                ) == spec_iref_loop(
                    stream.model(),
                    self.acc(),
                    nesting_level,
                    *num_parsed_boxes as int,
                ),
            decreases loop_measure(*stream),
        {
            let box_features = match parse_box(nesting_level, stream, num_parsed_boxes) {
                Ok(b) => b,
                Err(e) => {
                    return Err(e);
                },
            };
            let mut box_stream = match stream.substream(box_features.content_size) {
                Ok(s) => s,
                Err(e) => {
                    return Err(e);
                },
            };

            if box_features.box_type == DIMG_4CC {
                // See ISO/IEC 14496-12:2015(E) 8.11.12.2
                let num_bytes_per_id: u8 = if box_features.version == 0 {
                    2
                } else {
                    4
                };
                let ghost ms0 = box_stream.model();
                let from_item_id = match box_stream.read_uint(num_bytes_per_id) {
                    Ok(v) => v,
                    Err(e) => {
                        return Err(e);
                    },
                };
                proof {
                    lemma_be_val_bound(ms0.bytes_at(num_bytes_per_id as int));
                    crate::stream::lemma_pow256_mono(num_bytes_per_id as nat, 4);
                    reveal_with_fuel(pow256, 5);
                }
                let reference_count = match box_stream.read_u16() {
                    Ok(v) => v,
                    Err(e) => {
                        return Err(e);
                    },
                };
                match self.parse_dimg_refs(
                    &mut box_stream,
                    from_item_id,
                    num_bytes_per_id,
                    reference_count,
                ) {
                    Ok(()) => {},
                    Err(e) => {
                        return Err(e);
                    },
                }

                // If all features are available now, do not look further.
                let ghost fx = self.acc();
                match self.get_primary_item_features() {
                    Ok(()) => {
                        proof {
                            lemma_gpif_state(fx);
                        }
                        return Ok(());
                    },
                    Err(InternalError::NotFound) => {
                        proof {
                            lemma_gpif_state(fx);
                        }
                    },
                    Err(error) => {
                        return Err(error);
                    },
                }
            }
        }
        Err(InternalError::NotFound)
    }

    /// Parses the content of an `iinf` box: `infe` children may announce a
    /// `tmap` (Tone-Mapped Image) item, whose presence indicates a gain map.
    /// If the stream ends before the announced entry count is exhausted, the
    /// walk stops silently.
    #[verifier::rlimit(100)]
    pub fn parse_iinf(&mut self, nesting_level: u32, stream: &mut Stream, box_version: u8, num_parsed_boxes: &mut u32) -> (r: Result<(), InternalError>)
        requires
            old(self).wf(),
            old(self).pitm_ok(old(stream).orig@),
            old(stream).wf(),
            *old(num_parsed_boxes) < AVIFINFO_MAX_NUM_BOXES,
            1 <= nesting_level <= 16,
        ensures
            final(stream).same_window(*old(stream)),
            *old(num_parsed_boxes) <= *final(num_parsed_boxes) <= AVIFINFO_MAX_NUM_BOXES,
            final(self).pitm_ok(old(stream).orig@),
            final(self).wf(),
            final(self).iinf_parsed,
            r is Err,
            r == Result::<(), InternalError>::Err(InternalError::NotFound) ==> *final(
                num_parsed_boxes) < AVIFINFO_MAX_NUM_BOXES,
            ({
                let g = spec_parse_iinf(
                    old(stream).model(),
                    old(self).acc(),
                    nesting_level,
                    box_version,
                    *old(num_parsed_boxes) as int,
                );
                &&& r == g.res
                &&& final(self).acc() == g.fx
                &&& *final(num_parsed_boxes) as int == g.nb
            }),
    {
        self.iinf_parsed = true;

        let num_bytes_per_entry_count: u8 = if box_version == 0 {
            2
        } else {
            4
        };
        let ghost m0 = stream.model();
        let entry_count = match stream.read_uint(num_bytes_per_entry_count) {
            Ok(v) => v,
            Err(e) => {
                return Err(e);
            },
        };
        proof {
            lemma_be_val_bound(m0.bytes_at(num_bytes_per_entry_count as int));
            crate::stream::lemma_pow256_mono(num_bytes_per_entry_count as nat, 4);
            reveal_with_fuel(pow256, 5);
        }
        let mut entry: u32 = 0;
        while entry < entry_count
            invariant_except_break
                spec_parse_iinf(
                    old(stream).model(),
                    old(self).acc(),
                    nesting_level,
                    box_version,
                    *old(num_parsed_boxes) as int,
                ) == spec_iinf_loop(
                    stream.model(),
                    self.acc(),
                    nesting_level,
                    *num_parsed_boxes as int,
                    entry as int,
                    entry_count as int,
                ),
            invariant
                self.wf(),
                self.pitm_ok(old(stream).orig@),
                self.iinf_parsed,
                *old(num_parsed_boxes) <= *num_parsed_boxes < AVIFINFO_MAX_NUM_BOXES,
                stream.same_window(*old(stream)),
                stream.wf(),
                1 <= nesting_level <= 16,
            ensures
                self.wf(),
                self.pitm_ok(old(stream).orig@),
                self.iinf_parsed,
                *old(num_parsed_boxes) <= *num_parsed_boxes < AVIFINFO_MAX_NUM_BOXES,
                stream.same_window(*old(stream)),
                stream.wf(),
                spec_parse_iinf(
                    old(stream).model(),
                    old(self).acc(),
                    nesting_level,
                    box_version,
                    *old(num_parsed_boxes) as int,
                ) == (GStep {
                    res: Err(InternalError::NotFound),
                    fx: self.acc(),
                    nb: *num_parsed_boxes as int,
                }),
            decreases entry_count - entry,
        {
            let box_features = match parse_box(nesting_level, stream, num_parsed_boxes) {
                Ok(b) => b,
                Err(e) => {
                    return Err(e);
                },
            };
            let mut box_stream = match stream.substream(box_features.content_size) {
                Ok(s) => s,
                Err(e) => {
                    return Err(e);
                },
            };

            if box_features.box_type == INFE_4CC {
                // See ISO/IEC 14496-12:2015(E) 8.11.6.2
                let (item_id, item_type) = match parse_infe(
                    &mut box_stream,
                    box_features.version,
                ) {
                    Ok(v) => v,
                    Err(e) => {
                        return Err(e);
                    },
                };
                if item_type == TMAP_4CC {
                    // Tone-Mapped Image: indicates the presence of a gain map.
                    if item_id <= AVIFINFO_MAX_VALUE as u32 {
                        self.tone_mapped_item_id = item_id as u8;
                    } else {
                        self.data_was_skipped = true;
                    }
                }
            }

            if !stream.has_more_bytes() {
                break ;  // Ignore an entry count bigger than the box.
            }
            entry = entry + 1;
        }
        Err(InternalError::NotFound)
    }

    /// Parses the content of a `meta` box: records the primary item id from
    /// `pitm` together with the absolute location of its id field, and
    /// recurses into `iprp`, `iref` and `iinf` until resolution succeeds.
    /// `stream_offset` is where this content starts in the original buffer.
    #[verifier::rlimit(100)]
    pub fn parse_meta(&mut self, nesting_level: u32, stream_offset: usize, stream: &mut Stream, num_parsed_boxes: &mut u32) -> (r: Result<(), InternalError>)
        requires
            old(self).wf(),
            old(self).pitm_ok(old(stream).orig@),
            old(stream).wf(),
            old(stream).win().len() > 0 ==> old(stream).pos@ == stream_offset as int,
            *old(num_parsed_boxes) < AVIFINFO_MAX_NUM_BOXES,
            1 <= nesting_level <= 14,
        ensures
            final(stream).same_window(*old(stream)),
            *old(num_parsed_boxes) <= *final(num_parsed_boxes) <= AVIFINFO_MAX_NUM_BOXES,
            final(self).pitm_ok(old(stream).orig@),
            r is Ok ==> final(self).resolved_ok(),
            r is Ok ==> exists|fx: GAcc|
                (#[trigger] spec_gpif(fx)).0 && fx.wf() && final(self).acc() == (GAcc {
                    primary_item_features: spec_gpif(fx).1,
                    ..fx
                }),
            !(r is Ok) ==> final(self).wf(),
            ({
                let g = spec_parse_meta(
                    old(stream).model(),
                    old(self).acc(),
                    nesting_level,
                    stream_offset as int,
                    *old(num_parsed_boxes) as int,
                );
                &&& r == g.res
                &&& final(self).acc() == g.fx
                &&& *final(num_parsed_boxes) as int == g.nb
            }),
    {
        while stream.has_more_bytes()
            invariant
                self.wf(),
                self.pitm_ok(old(stream).orig@),
                *old(num_parsed_boxes) <= *num_parsed_boxes < AVIFINFO_MAX_NUM_BOXES,
                stream.same_window(*old(stream)),
                stream.wf(),
                stream.win().len() > 0 ==> stream.pos@ == stream_offset as int,
                1 <= nesting_level <= 14,
                spec_parse_meta(
                    old(stream).model(),
                    old(self).acc(),
                    nesting_level,
                    stream_offset as int,
                    *old(num_parsed_boxes) as int,
                ) == spec_parse_meta(
                    stream.model(),
                    self.acc(),
                    nesting_level,
                    stream_offset as int,
                    *num_parsed_boxes as int,
                ),
            decreases loop_measure(*stream),
        {
            let ghost m_top = stream.model();
            let ghost fx_top = self.acc();
            let ghost nb_top = *num_parsed_boxes as int;
            let box_features = match parse_box(nesting_level, stream, num_parsed_boxes) {
                Ok(b) => b,
                Err(e) => {
                    return Err(e);
                },
            };
            let box_header_size = stream.num_read_bytes();
            let mut box_stream = match stream.substream(box_features.content_size) {
                Ok(s) => s,
                Err(e) => {
                    return Err(e);
                },
            };
            let ghost bs0 = box_stream;
            proof {
                let o = spec_open_box(m_top, nesting_level, nb_top);
                assert(o.res is Ok);
                assert(box_stream.model() == o.sub);
                assert(stream.model() == o.next);
                assert(*num_parsed_boxes as int == o.nb);
                assert(box_header_size as int == o.header_end);
            }

            if box_features.box_type == PITM_4CC {
                // See ISO/IEC 14496-12:2015(E) 8.11.4.2
                if box_header_size > usize::MAX - stream_offset {
                    return Err(InternalError::Aborted);
                }
                let primary_item_id_location: usize = stream_offset + box_header_size;
                let (primary_item_id, num_bytes_per_id) = match parse_pitm(
                    &mut box_stream,
                    box_features.version,
                ) {
                    Ok(v) => v,
                    Err(e) => {
                        return Err(e);
                    },
                };
                proof {
                    let k: int = if box_features.version == 0 {
                        2
                    } else {
                        4
                    };
                    assert(bs0.model().can_read(k));
                    assert(num_bytes_per_id as int == k);
                    lemma_be_val_bound(bs0.model().bytes_at(k));
                    assert(primary_item_id as int == be_val(bs0.model().bytes_at(k)));
                    assert(bs0.win().len() >= k > 0);
                    assert(bs0.pos@ == stream_offset + box_header_size);
                    assert(bs0.model().bytes_at(k) =~= bs0.orig@.subrange(
                        bs0.pos@,
                        bs0.pos@ + k,
                    ));
                }
                self.has_primary_item = true;
                self.primary_item_id = primary_item_id;
                self.primary_item_features.primary_item_id_location = primary_item_id_location;
                self.primary_item_features.primary_item_id_bytes = num_bytes_per_id;
            } else if box_features.box_type == IPRP_4CC {
                match self.parse_iprp(nesting_level + 1, &mut box_stream, num_parsed_boxes) {
                    Ok(()) => {
                        return Ok(());
                    },
                    Err(InternalError::NotFound) => {},  // Keep searching.
                    Err(error) => {
                        return Err(error);
                    },
                }
            } else if box_features.box_type == IREF_4CC {
                match self.parse_iref(nesting_level + 1, &mut box_stream, num_parsed_boxes) {
                    Ok(()) => {
                        return Ok(());
                    },
                    Err(InternalError::NotFound) => {},  // Keep searching.
                    Err(error) => {
                        return Err(error);
                    },
                }
            } else if box_features.box_type == IINF_4CC {
                match self.parse_iinf(
                    nesting_level + 1,
                    &mut box_stream,
                    box_features.version,
                    num_parsed_boxes,
                ) {
                    Ok(()) => {
                        return Ok(());
                    },
                    Err(InternalError::NotFound) => {},  // Keep searching.
                    Err(error) => {
                        return Err(error);
                    },
                }
            }
        }
        // There is at most one `meta` box in a file, so nothing more will
        // turn up: what is missing was either skipped or absent.
        Err(
            if self.data_was_skipped {
                InternalError::Aborted
            } else {
                InternalError::Invalid
            },
        )
    }

    /// Parses a whole file stream: top-level boxes are walked until `meta`
    /// is found, whose content yields the features. A non-`meta` top-level
    /// box running to the end of the file means `meta` is missing.
    #[verifier::rlimit(100)]
    pub fn parse_file(&mut self, stream: &mut Stream) -> (r: Result<(), InternalError>)
        requires
            old(self).wf(),
            old(self).pitm_ok(old(stream).orig@),
            old(stream).wf(),
            old(stream).pos@ == 0,
            old(stream).size is None,
        ensures
            r is Ok ==> final(self).resolved_ok() && final(self).pitm_ok(old(stream).orig@),
            r is Ok ==> exists|fx: GAcc|
                (#[trigger] spec_gpif(fx)).0 && fx.wf() && final(self).acc() == (GAcc {
                    primary_item_features: spec_gpif(fx).1,
                    ..fx
                }),
            !(r is Ok) ==> final(self).wf(),
            ({
                let g = spec_parse_file(old(stream).model(), old(self).acc(), 0);
                &&& r == g.res
                &&& final(self).acc() == g.fx
            }),
    {
        let mut num_parsed_boxes: u32 = 0;
        while stream.has_more_bytes()
            invariant
                self.wf(),
                self.pitm_ok(old(stream).orig@),
                num_parsed_boxes < AVIFINFO_MAX_NUM_BOXES,
                stream.same_window(*old(stream)),
                stream.wf(),
                stream.pos@ == 0,
                stream.size is None,
                spec_parse_file(old(stream).model(), old(self).acc(), 0) == spec_parse_file(
                    stream.model(),
                    self.acc(),
                    num_parsed_boxes as int,
                ),
            decreases loop_measure(*stream),
        {
            let box_features = match parse_box(0, stream, &mut num_parsed_boxes) {
                Ok(b) => b,
                Err(e) => {
                    return Err(e);
                },
            };
            let offset = stream.num_read_bytes();
            let mut box_stream = match stream.substream(box_features.content_size) {
                Ok(s) => s,
                Err(e) => {
                    return Err(e);
                },
            };

            if box_features.box_type == META_4CC {
                return self.parse_meta(1, offset, &mut box_stream, &mut num_parsed_boxes);
            } else if box_features.content_size.is_none() {
                // This non-meta box runs to the end of the file: `meta` is
                // missing.
                return Err(InternalError::Invalid);
            }
        }
        Err(InternalError::Invalid)
    }
}

} // verus!
