use vstd::prelude::*;
use crate::error::InternalError;
use crate::features::AVIFINFO_MAX_NUM_BOXES;
use crate::stream::{be_val, SModel, Stream};

verus! {

// Four-character codes, packed big-endian into a `u32`.
pub const FTYP_4CC: u32 = 0x66747970;

pub const META_4CC: u32 = 0x6D657461;

pub const PITM_4CC: u32 = 0x7069746D;

pub const IPMA_4CC: u32 = 0x69706D61;

pub const ISPE_4CC: u32 = 0x69737065;

pub const PIXI_4CC: u32 = 0x70697869;

pub const IREF_4CC: u32 = 0x69726566;

pub const AUXC_4CC: u32 = 0x61757843;

pub const IINF_4CC: u32 = 0x69696E66;

pub const INFE_4CC: u32 = 0x696E6665;

pub const SKIP_4CC: u32 = 0x736B6970;

pub const IPRP_4CC: u32 = 0x69707270;

pub const IPCO_4CC: u32 = 0x6970636F;

pub const DIMG_4CC: u32 = 0x64696D67;

pub const TMAP_4CC: u32 = 0x746D6170;

pub const AV1C_4CC: u32 = 0x61763143;

pub const AVIF_4CC: u32 = 0x61766966;

pub const AVIS_4CC: u32 = 0x61766973;

/// One box header, read from the beginning of a stream.
pub struct InternalBox {
    /// Four-character type, big-endian packed.
    pub box_type: u32,
    /// 0, or the actual version if this is a full box.
    pub version: u8,
    /// 0, or the actual value if this is a full box.
    pub flags: u32,
    /// If known, size of the box content in bytes, header exclusive.
    pub content_size: Option<usize>,
}

/// The box types whose header carries a version byte and 24-bit flags.
pub open spec fn is_full_box_type(t: int) -> bool {
    ||| t == META_4CC as int
    ||| t == PITM_4CC as int
    ||| t == IPMA_4CC as int
    ||| t == ISPE_4CC as int
    ||| t == PIXI_4CC as int
    ||| t == IREF_4CC as int
    ||| t == AUXC_4CC as int
    ||| t == IINF_4CC as int
    ||| t == INFE_4CC as int
}

/// The full-box versions this parser understands; any other version demotes
/// the box to an ignorable one.
pub open spec fn is_parsable_version(t: int, version: int) -> bool {
    ||| (t == META_4CC as int && version == 0)
    ||| (t == PITM_4CC as int && version <= 1)
    ||| (t == IPMA_4CC as int && version <= 1)
    ||| (t == ISPE_4CC as int && version == 0)
    ||| (t == PIXI_4CC as int && version == 0)
    ||| (t == IREF_4CC as int && version <= 1)
    ||| (t == AUXC_4CC as int && version == 0)
    ||| (t == IINF_4CC as int && version <= 1)
    ||| (t == INFE_4CC as int && version <= 2)
}

/// The box header that `spec_parse_box` predicts.
pub ghost struct GBox {
    pub box_type: u32,
    pub version: u8,
    pub flags: u32,
    pub content_size: Option<int>,
}

/// The complete outcome that `spec_parse_box` predicts: result, cursor after
/// the header, and box count after the header.
pub ghost struct GParse {
    pub res: Result<GBox, InternalError>,
    pub offset: int,
    pub boxes: int,
}

pub open spec fn gp_err(e: InternalError, nb: int) -> GParse {
    GParse { res: Err(e), offset: 0, boxes: nb }
}

/// What reading one box header from stream state `s` yields, exactly.
#[verifier::opaque]
pub open spec fn spec_parse_box(s: SModel, nesting_level: u32, nb: int) -> GParse {
    if !s.can_read(4) {
        gp_err(s.read_err(4), nb)
    } else {
        let size32 = be_val(s.bytes_at(4));
        let s1 = s.advance(4);
        if !s1.can_read(4) {
            gp_err(s1.read_err(4), nb)
        } else {
            let typ = be_val(s1.bytes_at(4));
            let s2 = s1.advance(4);
            spec_parse_box_sized(s2, size32, typ, nesting_level, nb)
        }
    }
}

/// Continuation of `spec_parse_box` once the 32-bit size and type are read.
#[verifier::opaque]
pub open spec fn spec_parse_box_sized(
    s2: SModel,
    size32: int,
    typ: int,
    nesting_level: u32,
    nb: int,
) -> GParse {
    if size32 == 1 {
        if !s2.can_read(8) {
            gp_err(s2.read_err(8), nb)
        } else {
            let size64 = be_val(s2.bytes_at(8));
            let s3 = s2.advance(8);
            if size64 > usize::MAX as int {
                gp_err(InternalError::Aborted, nb)
            } else {
                spec_parse_box_checked(s3, Some(size64), 16, typ, nesting_level, nb)
            }
        }
    } else if size32 == 0 {
        if nesting_level != 0 {
            gp_err(InternalError::Invalid, nb)
        } else {
            spec_parse_box_checked(s2, None, 8, typ, nesting_level, nb)
        }
    } else {
        spec_parse_box_checked(s2, Some(size32), 8, typ, nesting_level, nb)
    }
}

/// Continuation of `spec_parse_box` once the declared box size is known.
#[verifier::opaque]
pub open spec fn spec_parse_box_checked(
    s: SModel,
    box_size: Option<int>,
    base_header: int,
    typ: int,
    nesting_level: u32,
    nb: int,
) -> GParse {
    let header = base_header + if is_full_box_type(typ) {
        4int
    } else {
        0int
    };
    if box_size matches Some(bs) && bs < header {
        gp_err(InternalError::Invalid, nb)
    } else {
        let content_size = match box_size {
            Some(bs) => Some(bs - header),
            None => None,
        };
        let parent_ok = match s.size {
            Some(ps) => {
                let remaining = if ps >= s.offset {
                    ps - s.offset
                } else {
                    0int
                };
                (match content_size {
                    Some(cs) => cs,
                    None => header,
                }) <= remaining
            },
            None => true,
        };
        if !parent_ok {
            gp_err(InternalError::Invalid, nb)
        } else {
            let counted = nesting_level != 0 || typ != FTYP_4CC as int;
            let nb1 = if counted {
                nb + 1
            } else {
                nb
            };
            if counted && nb1 >= AVIFINFO_MAX_NUM_BOXES as int {
                gp_err(InternalError::Aborted, nb1)
            } else if is_full_box_type(typ) {
                if !s.can_read(1) {
                    gp_err(s.read_err(1), nb1)
                } else {
                    let version = be_val(s.bytes_at(1));
                    let sv = s.advance(1);
                    if !sv.can_read(3) {
                        gp_err(sv.read_err(3), nb1)
                    } else {
                        let flags = be_val(sv.bytes_at(3));
                        let typf = if is_parsable_version(typ, version) {
                            typ
                        } else {
                            SKIP_4CC as int
                        };
                        GParse {
                            res: Ok(
                                GBox {
                                    box_type: typf as u32,
                                    version: version as u8,
                                    flags: flags as u32,
                                    content_size,
                                },
                            ),
                            offset: sv.offset + 3,
                            boxes: nb1,
                        }
                    }
                }
            } else {
                GParse {
                    res: Ok(
                        GBox { box_type: typ as u32, version: 0, flags: 0, content_size },
                    ),
                    offset: s.offset,
                    boxes: nb1,
                }
            }
        }
    }
}

/// The executable header matches the predicted one.
pub open spec fn gbox_matches(b: InternalBox, gb: GBox) -> bool {
    &&& b.box_type == gb.box_type
    &&& b.version == gb.version
    &&& b.flags == gb.flags
    &&& match (b.content_size, gb.content_size) {
        (Some(a), Some(c)) => a as int == c,
        (None, None) => true,
        _ => false,
    }
}


/// Facts a successful header read guarantees about the cursor and the
/// counter: the header is 8 to 20 bytes, it lies inside the window, every
/// box below the top level is counted exactly once, and a known content
/// size is never negative.
pub proof fn lemma_parse_box_offsets(s: SModel, nesting_level: u32, nb: int)
    ensures
        ({
            let g = spec_parse_box(s, nesting_level, nb);
            g.res matches Ok(b) ==> {
                &&& s.offset + 8 <= g.offset <= s.win.len()
                &&& (nesting_level != 0 ==> g.boxes == nb + 1)
                &&& nb <= g.boxes <= nb + 1
                &&& (b.content_size matches Some(cs) ==> cs >= 0)
            }
        }),
{
    reveal(spec_parse_box);
    reveal(spec_parse_box_sized);
    reveal(spec_parse_box_checked);
}

/// Reads the header of a box starting at the current position of a stream,
/// behaving exactly as `spec_parse_box` predicts. A top-level `ftyp` box is
/// not counted towards the global box bound, so that a caller that already
/// consumed `ftyp` gets the same answers as one that did not.
pub fn parse_box(nesting_level: u32, stream: &mut Stream, num_parsed_boxes: &mut u32) -> (r:
    Result<InternalBox, InternalError>)
    requires
        *old(num_parsed_boxes) < AVIFINFO_MAX_NUM_BOXES,
    ensures
        final(stream).same_window(*old(stream)),
        *old(num_parsed_boxes) <= *final(num_parsed_boxes) <= *old(num_parsed_boxes) + 1,
        *final(num_parsed_boxes) <= AVIFINFO_MAX_NUM_BOXES,
        ({
            let g = spec_parse_box(old(stream).model(), nesting_level, *old(num_parsed_boxes) as int);
            match r {
                Ok(b) => (g.res matches Ok(gb) && gbox_matches(b, gb)) && final(stream).offset
                    == g.offset && *final(num_parsed_boxes) == g.boxes && *final(num_parsed_boxes)
                    < AVIFINFO_MAX_NUM_BOXES,
                Err(e) => g.res == Result::<GBox, InternalError>::Err(e) && *final(
                    num_parsed_boxes) == g.boxes,
            }
        }),
        r is Ok ==> old(stream).offset + 8 <= final(stream).offset <= old(stream).win().len(),
        r matches Ok(b) ==> (nesting_level != 0 ==> b.content_size is Some),
        r matches Err(e) ==> e != InternalError::NotFound,
{
    proof {
        reveal(spec_parse_box);
        reveal(spec_parse_box_sized);
        reveal(spec_parse_box_checked);
    }
    let ghost s0 = *stream;
    let mut box_header_size: usize = 8;
    let size32 = match stream.read_u32() {
        Ok(v) => v,
        Err(e) => {
            return Err(e);
        },
    };
    let mut box_type = match stream.read_4cc() {
        Ok(v) => v,
        Err(e) => {
            return Err(e);
        },
    };
    let mut box_size: Option<usize> = Some(size32 as usize);
    if size32 == 1 {
        box_header_size = 16;
        let size64 = match stream.read_u64() {
            Ok(v) => v,
            Err(e) => {
                return Err(e);
            },
        };
        if size64 > usize::MAX as u64 {
            return Err(InternalError::Aborted);
        }
        box_size = Some(size64 as usize);
    } else if size32 == 0 {
        if nesting_level != 0 {
            return Err(InternalError::Invalid);
        }
        box_size = None;
    }
    let has_fullbox_header = box_type == META_4CC || box_type == PITM_4CC || box_type == IPMA_4CC
        || box_type == ISPE_4CC || box_type == PIXI_4CC || box_type == IREF_4CC || box_type
        == AUXC_4CC || box_type == IINF_4CC || box_type == INFE_4CC;
    if has_fullbox_header {
        box_header_size = box_header_size + 4;
    }
    let content_size: Option<usize> = match box_size {
        Some(bs) => {
            if bs < box_header_size {
                return Err(InternalError::Invalid);
            }
            Some(bs - box_header_size)
        },
        None => None,
    };
    if let Some(size) = stream.size {
        let remaining: usize = if size >= stream.offset {
            size - stream.offset
        } else {
            0
        };
        let compared: usize = match content_size {
            Some(cs) => cs,
            None => box_header_size,
        };
        if compared > remaining {
            return Err(InternalError::Invalid);
        }
    }
    if nesting_level != 0 || box_type != FTYP_4CC {
        *num_parsed_boxes = *num_parsed_boxes + 1;
        if *num_parsed_boxes >= AVIFINFO_MAX_NUM_BOXES {
            return Err(InternalError::Aborted);
        }
    }
    let mut version: u8 = 0;
    let mut flags: u32 = 0;
    if has_fullbox_header {
        version = match stream.read_u8() {
            Ok(v) => v,
            Err(e) => {
                return Err(e);
            },
        };
        flags = match stream.read_u24() {
            Ok(v) => v,
            Err(e) => {
                return Err(e);
            },
        };
        let is_parsable = (box_type == META_4CC && version == 0) || (box_type == PITM_4CC
            && version <= 1) || (box_type == IPMA_4CC && version <= 1) || (box_type == ISPE_4CC
            && version == 0) || (box_type == PIXI_4CC && version == 0) || (box_type == IREF_4CC
            && version <= 1) || (box_type == AUXC_4CC && version == 0) || (box_type == IINF_4CC
            && version <= 1) || (box_type == INFE_4CC && version <= 2);
        if !is_parsable {
            box_type = SKIP_4CC;
        }
    }
    Ok(InternalBox { box_type, version, flags, content_size })
}

} // verus!
