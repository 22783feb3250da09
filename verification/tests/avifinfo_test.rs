use avifinfo::{get_features, identify, AvifInfoError, Features};

// ---------------------------------------------------------------------------
// Synthetic AVIF payload builders.

fn be16(v: u16) -> Vec<u8> {
    v.to_be_bytes().to_vec()
}

fn be32(v: u32) -> Vec<u8> {
    v.to_be_bytes().to_vec()
}

/// A plain box: 32-bit size, four-character type, content.
fn bx(typ: &[u8; 4], content: &[u8]) -> Vec<u8> {
    let mut v = be32((content.len() + 8) as u32);
    v.extend_from_slice(typ);
    v.extend_from_slice(content);
    v
}

/// A full box: 32-bit size, type, version byte, 24-bit flags, content.
fn full(typ: &[u8; 4], version: u8, flags: u32, content: &[u8]) -> Vec<u8> {
    let mut v = be32((content.len() + 12) as u32);
    v.extend_from_slice(typ);
    v.push(version);
    v.extend_from_slice(&be32(flags)[1..]);
    v.extend_from_slice(content);
    v
}

fn concat(parts: &[Vec<u8>]) -> Vec<u8> {
    let mut v = Vec::new();
    for p in parts {
        v.extend_from_slice(p);
    }
    v
}

/// A 32-byte `ftyp` with major brand `avif`.
fn ftyp_box() -> Vec<u8> {
    let mut content = Vec::new();
    content.extend_from_slice(b"avif");
    content.extend_from_slice(&[0, 0, 0, 0]);
    content.extend_from_slice(b"mif1miafMA1BMA1A");
    bx(b"ftyp", &content)
}

/// A 40-byte handler box, ignored by the parser but present in real files.
fn hdlr_box() -> Vec<u8> {
    bx(b"hdlr", &[0u8; 32])
}

fn pitm_box(id: u16) -> Vec<u8> {
    full(b"pitm", 0, 0, &be16(id))
}

fn infe_box(id: u16, item_type: &[u8; 4]) -> Vec<u8> {
    let mut content = be16(id);
    content.extend_from_slice(&be16(0)); // item_protection_index
    content.extend_from_slice(item_type);
    full(b"infe", 2, 0, &content)
}

fn iinf_box(entries: &[Vec<u8>]) -> Vec<u8> {
    let mut content = be16(entries.len() as u16);
    content.extend_from_slice(&concat(entries));
    full(b"iinf", 0, 0, &content)
}

fn ispe_box(width: u32, height: u32) -> Vec<u8> {
    let mut content = be32(width);
    content.extend_from_slice(&be32(height));
    full(b"ispe", 0, 0, &content)
}

fn pixi_box(depths: &[u8]) -> Vec<u8> {
    let mut content = vec![depths.len() as u8];
    content.extend_from_slice(depths);
    full(b"pixi", 0, 0, &content)
}

fn av1c_box(high_bitdepth: bool, twelve_bit: bool, monochrome: bool) -> Vec<u8> {
    let mut b: u8 = 0;
    if high_bitdepth {
        b |= 0x40;
    }
    if twelve_bit {
        b |= 0x20;
    }
    if monochrome {
        b |= 0x10;
    }
    bx(b"av1C", &[0x81, 0x00, b, 0x00])
}

const ALPHA_URN: &[u8] = b"urn:mpeg:mpegB:cicp:systems:auxiliary:alpha\0";
const GAINMAP_URN: &[u8] = b"urn:com:photo:aux:hdrgainmap\0";

fn auxc_box(urn: &[u8]) -> Vec<u8> {
    full(b"auxC", 0, 0, urn)
}

fn ipco_box(children: &[Vec<u8>]) -> Vec<u8> {
    bx(b"ipco", &concat(children))
}

/// `ipma` version 0, flags 0: 16-bit item ids, one byte per association.
fn ipma_box(entries: &[(u16, &[u8])]) -> Vec<u8> {
    let mut content = be32(entries.len() as u32);
    for (item_id, associations) in entries {
        content.extend_from_slice(&be16(*item_id));
        content.push(associations.len() as u8);
        content.extend_from_slice(associations);
    }
    full(b"ipma", 0, 0, &content)
}

fn iprp_box(children: &[Vec<u8>]) -> Vec<u8> {
    bx(b"iprp", &concat(children))
}

/// `dimg` is not a full box; the reference ids are 16-bit at version 0.
fn dimg_box(from_item_id: u16, to_item_ids: &[u16]) -> Vec<u8> {
    let mut content = be16(from_item_id);
    content.extend_from_slice(&be16(to_item_ids.len() as u16));
    for to in to_item_ids {
        content.extend_from_slice(&be16(*to));
    }
    bx(b"dimg", &content)
}

fn iref_box(children: &[Vec<u8>]) -> Vec<u8> {
    full(b"iref", 0, 0, &concat(children))
}

fn meta_box(children: &[Vec<u8>]) -> Vec<u8> {
    full(b"meta", 0, 0, &concat(children))
}

/// A `meta` box whose size field is 1 followed by a 64-bit size.
fn meta_box_64(children: &[Vec<u8>]) -> Vec<u8> {
    let content = concat(children);
    let mut v = be32(1);
    v.extend_from_slice(b"meta");
    v.extend_from_slice(&((content.len() + 20) as u64).to_be_bytes());
    v.push(0);
    v.extend_from_slice(&[0, 0, 0]);
    v.extend_from_slice(&content);
    v
}

/// A 1x1 8-bit RGB AVIF whose primary item id field sits at offset 96.
fn avif_1x1() -> Vec<u8> {
    concat(&[
        ftyp_box(),
        meta_box(&[
            hdlr_box(),
            pitm_box(1),
            iinf_box(&[infe_box(1, b"av01")]),
            iprp_box(&[
                ipco_box(&[ispe_box(1, 1), pixi_box(&[8, 8, 8]), av1c_box(false, false, false)]),
                ipma_box(&[(1, &[1, 2, 3])]),
            ]),
        ]),
    ])
}

/// A 2x2 8-bit AVIF with an alpha auxiliary item.
fn avif_2x2_alpha() -> Vec<u8> {
    concat(&[
        ftyp_box(),
        meta_box(&[
            hdlr_box(),
            pitm_box(1),
            iinf_box(&[infe_box(1, b"av01"), infe_box(2, b"av01")]),
            iprp_box(&[
                ipco_box(&[
                    ispe_box(2, 2),
                    pixi_box(&[8, 8, 8]),
                    av1c_box(false, false, false),
                    auxc_box(ALPHA_URN),
                ]),
                ipma_box(&[(1, &[1, 2, 3]), (2, &[1, 3, 4])]),
            ]),
        ]),
    ])
}

/// A 20x20 8-bit AVIF with an Adobe-scheme gain map as item 2.
fn avif_20x20_gainmap() -> Vec<u8> {
    concat(&[
        ftyp_box(),
        meta_box(&[
            hdlr_box(),
            pitm_box(1),
            iinf_box(&[infe_box(1, b"av01"), infe_box(2, b"av01")]),
            iprp_box(&[
                ipco_box(&[
                    ispe_box(20, 20),
                    pixi_box(&[8, 8, 8]),
                    av1c_box(false, false, false),
                    auxc_box(GAINMAP_URN),
                ]),
                ipma_box(&[(1, &[1, 2, 3]), (2, &[1, 2, 3, 4])]),
            ]),
        ]),
    ])
}

/// A 12x34 10-bit AVIF with alpha and a `tmap`-scheme gain map (item 4, the
/// second `dimg` input of the tone-mapped item 3). `iref` comes before or
/// after `iprp` depending on `iref_first`.
fn avif_12x34_gainmap_tmap(iref_first: bool) -> Vec<u8> {
    let iinf = iinf_box(&[
        infe_box(1, b"av01"),
        infe_box(2, b"av01"),
        infe_box(3, b"tmap"),
        infe_box(4, b"av01"),
    ]);
    let iref = iref_box(&[dimg_box(3, &[1, 4])]);
    let iprp = iprp_box(&[
        ipco_box(&[
            ispe_box(12, 34),
            pixi_box(&[10, 10, 10]),
            av1c_box(true, false, false),
            auxc_box(ALPHA_URN),
        ]),
        ipma_box(&[(1, &[1, 2, 3]), (2, &[4])]),
    ]);
    let children = if iref_first {
        vec![hdlr_box(), pitm_box(1), iinf, iref, iprp]
    } else {
        vec![hdlr_box(), pitm_box(1), iinf, iprp, iref]
    };
    concat(&[ftyp_box(), meta_box(&children)])
}

/// A 1x1 10-bit AVIF without `pixi`, with a 64-bit `meta` size and a
/// zero-sized `mdat` at the end of the file.
fn avif_1x1_10b_nopixi() -> Vec<u8> {
    let mut v = concat(&[
        ftyp_box(),
        meta_box_64(&[
            hdlr_box(),
            pitm_box(1),
            iinf_box(&[infe_box(1, b"av01")]),
            iprp_box(&[
                ipco_box(&[ispe_box(1, 1), av1c_box(true, false, false)]),
                ipma_box(&[(1, &[1, 2])]),
            ]),
        ]),
    ]);
    v.extend_from_slice(&be32(0));
    v.extend_from_slice(b"mdat");
    v
}

fn expected_1x1() -> Features {
    Features {
        width: 1,
        height: 1,
        bit_depth: 8,
        num_channels: 3,
        has_gainmap: false,
        gainmap_item_id: 0,
        primary_item_id_location: 96,
        primary_item_id_bytes: 2,
    }
}

/// Byte offset of the first occurrence of `needle` in `haystack`.
fn find(haystack: &[u8], needle: &[u8]) -> usize {
    haystack
        .windows(needle.len())
        .position(|w| w == needle)
        .expect("pattern not found")
}

// ---------------------------------------------------------------------------
// Tests carried over from the original suite.

#[test]
fn empty() {
    assert_eq!(identify(&[]), Err(AvifInfoError::NotEnoughData));
    assert_eq!(get_features(&[]), Err(AvifInfoError::NotEnoughData));
}

#[test]
fn too_many_boxes() {
    // Create a valid-ish input with too many boxes.
    let mut input = Vec::new();
    input.extend_from_slice(&be32(16));
    input.extend_from_slice(b"ftyp");
    input.extend_from_slice(b"avif");
    input.extend_from_slice(&[0, 0, 0, 0]);
    for _ in 0..12345 {
        input.extend_from_slice(&be32(8));
        input.extend_from_slice(b"free");
    }
    assert_eq!(identify(&input), Ok(()));
    assert_eq!(get_features(&input), Err(AvifInfoError::TooComplex));
}

// ---------------------------------------------------------------------------
// End-to-end scenarios on synthetic payloads.

#[test]
fn single_pixel_rgb() {
    let data = avif_1x1();
    assert_eq!(identify(&data), Ok(()));
    assert_eq!(get_features(&data), Ok(expected_1x1()));
}

#[test]
fn two_by_two_rgba() {
    let data = avif_2x2_alpha();
    assert_eq!(identify(&data), Ok(()));
    let f = get_features(&data).unwrap();
    assert_eq!((f.width, f.height), (2, 2));
    assert_eq!(f.bit_depth, 8);
    assert_eq!(f.num_channels, 4);
    assert!(!f.has_gainmap);
}

#[test]
fn gainmap_adobe() {
    let data = avif_20x20_gainmap();
    assert_eq!(identify(&data), Ok(()));
    let f = get_features(&data).unwrap();
    assert_eq!((f.width, f.height), (20, 20));
    assert!(f.has_gainmap);
    assert_eq!(f.gainmap_item_id, 2);
    assert_eq!(f.num_channels, 3);
    assert_eq!(f.primary_item_id_location, 96);
    assert_eq!(f.primary_item_id_bytes, 2);
}

#[test]
fn gainmap_tmap_both_orders() {
    for iref_first in [true, false] {
        let data = avif_12x34_gainmap_tmap(iref_first);
        assert_eq!(identify(&data), Ok(()));
        let f = get_features(&data).unwrap();
        assert_eq!(
            f,
            Features {
                width: 12,
                height: 34,
                bit_depth: 10,
                num_channels: 4,
                has_gainmap: true,
                gainmap_item_id: 4,
                primary_item_id_location: 96,
                primary_item_id_bytes: 2,
            }
        );
    }
}

#[test]
fn no_pixi_10bit_meta64() {
    let data = avif_1x1_10b_nopixi();
    assert_eq!(identify(&data), Ok(()));
    let f = get_features(&data).unwrap();
    assert_eq!((f.width, f.height), (1, 1));
    assert_eq!(f.bit_depth, 10);
    assert_eq!(f.num_channels, 3);
    assert_eq!(f.primary_item_id_location, 104);
    assert_eq!(f.primary_item_id_bytes, 2);
}

#[test]
fn truncated_before_ipma() {
    let data = avif_1x1();
    let cut = find(&data, b"ipma") - 4;
    assert_eq!(identify(&data[..cut]), Ok(()));
    assert_eq!(get_features(&data[..cut]), Err(AvifInfoError::NotEnoughData));
}

#[test]
fn ispe_renamed() {
    let mut data = avif_1x1();
    let at = find(&data, b"ispe");
    data[at..at + 4].copy_from_slice(b"aspe");
    assert_eq!(identify(&data), Ok(()));
    assert_eq!(get_features(&data), Err(AvifInfoError::InvalidFile));
}

#[test]
fn ftyp_size_zeroed() {
    let mut data = avif_1x1();
    data[0..4].copy_from_slice(&be32(0));
    assert_eq!(identify(&data), Err(AvifInfoError::InvalidFile));
    assert_eq!(get_features(&data), Err(AvifInfoError::InvalidFile));
}

// ---------------------------------------------------------------------------
// Universal properties checked on concrete inputs.

#[test]
fn repeated_calls_agree() {
    let buffers = [
        Vec::new(),
        avif_1x1(),
        avif_2x2_alpha(),
        avif_20x20_gainmap(),
        avif_12x34_gainmap_tmap(true),
        avif_1x1_10b_nopixi(),
    ];
    for data in &buffers {
        assert_eq!(identify(data), identify(data));
        assert_eq!(get_features(data), get_features(data));
    }
}

#[test]
fn suffix_keeps_features() {
    let data = avif_1x1();
    let expected = get_features(&data).unwrap();
    let mut longer = data.clone();
    longer.extend_from_slice(&be32(0));
    longer.extend_from_slice(b"mdat");
    longer.extend_from_slice(&[0xAB; 57]);
    assert_eq!(get_features(&longer), Ok(expected));
}

#[test]
fn prefixes_never_invalid() {
    let data = avif_1x1();
    let expected = get_features(&data).unwrap();
    for cut in 0..data.len() + 1 {
        match get_features(&data[..cut]) {
            Ok(f) => assert_eq!(f, expected),
            Err(e) => assert_eq!(e, AvifInfoError::NotEnoughData, "prefix of {cut} bytes"),
        }
    }
}

#[test]
fn meta_version_softened() {
    // An unsupported `meta` version demotes the box instead of failing hard.
    let mut data = avif_1x1();
    let at = find(&data, b"meta") + 4;
    data[at] = 1;
    assert_eq!(get_features(&data), Err(AvifInfoError::NotEnoughData));
}

#[test]
fn infe_version_softened() {
    // With every `infe` demoted, the tone-mapped item goes unnoticed and the
    // gain map is simply not reported; the base features still resolve.
    let mut data = avif_12x34_gainmap_tmap(true);
    let mut start = 0;
    loop {
        let rest = &data[start..];
        let Some(pos) = rest.windows(4).position(|w| w == b"infe") else {
            break;
        };
        let at = start + pos + 4;
        data[at] = 7;
        start = at;
    }
    let f = get_features(&data).unwrap();
    assert_eq!((f.width, f.height), (12, 34));
    assert_eq!(f.bit_depth, 10);
    assert!(!f.has_gainmap);
    assert_eq!(f.gainmap_item_id, 0);
}

// ---------------------------------------------------------------------------
// The primary item id field really sits at the reported location.

#[test]
fn primary_id_bytes_at_reported_location() {
    let data = avif_1x1();
    let f = get_features(&data).unwrap();
    let loc = f.primary_item_id_location;
    let width = f.primary_item_id_bytes as usize;
    let id = data[loc..loc + width]
        .iter()
        .fold(0u32, |acc, b| acc * 256 + *b as u32);
    assert_eq!(id, 1);
}

#[test]
fn rewrite_primary_id_to_gainmap() {
    let mut data = avif_20x20_gainmap();
    let f = get_features(&data).unwrap();
    assert_eq!(f.gainmap_item_id, 2);
    let loc = f.primary_item_id_location;
    data[loc] = 0;
    data[loc + 1] = f.gainmap_item_id;
    let g = get_features(&data).unwrap();
    assert_eq!((g.width, g.height), (20, 20));
    assert!(g.has_gainmap);
    assert_eq!(g.gainmap_item_id, 2);
}

// ---------------------------------------------------------------------------
// Per-formula and per-error checks.

#[test]
fn av1c_twelve_bit() {
    let mut data = concat(&[
        ftyp_box(),
        meta_box(&[
            hdlr_box(),
            pitm_box(1),
            iinf_box(&[infe_box(1, b"av01")]),
            iprp_box(&[
                ipco_box(&[ispe_box(1, 1), av1c_box(true, true, false)]),
                ipma_box(&[(1, &[1, 2])]),
            ]),
        ]),
    ]);
    assert_eq!(get_features(&data).unwrap().bit_depth, 12);
    // The same configuration without the high-bit-depth flag is invalid.
    let at = find(&data, b"av1C") + 4 + 2;
    data[at] = 0x20;
    assert_eq!(get_features(&data), Err(AvifInfoError::InvalidFile));
}

#[test]
fn av1c_monochrome() {
    let data = concat(&[
        ftyp_box(),
        meta_box(&[
            hdlr_box(),
            pitm_box(1),
            iinf_box(&[infe_box(1, b"av01")]),
            iprp_box(&[
                ipco_box(&[ispe_box(3, 5), av1c_box(false, false, true)]),
                ipma_box(&[(1, &[1, 2])]),
            ]),
        ]),
    ]);
    let f = get_features(&data).unwrap();
    assert_eq!(f.num_channels, 1);
    assert_eq!(f.bit_depth, 8);
}

#[test]
fn pixi_depth_mismatch() {
    let data = concat(&[
        ftyp_box(),
        meta_box(&[
            hdlr_box(),
            pitm_box(1),
            iinf_box(&[infe_box(1, b"av01")]),
            iprp_box(&[
                ipco_box(&[ispe_box(1, 1), pixi_box(&[8, 8, 10])]),
                ipma_box(&[(1, &[1, 2])]),
            ]),
        ]),
    ]);
    assert_eq!(get_features(&data), Err(AvifInfoError::InvalidFile));
}

#[test]
fn zero_width_invalid() {
    let data = concat(&[
        ftyp_box(),
        meta_box(&[
            hdlr_box(),
            pitm_box(1),
            iinf_box(&[infe_box(1, b"av01")]),
            iprp_box(&[
                ipco_box(&[ispe_box(0, 1), pixi_box(&[8, 8, 8])]),
                ipma_box(&[(1, &[1, 2])]),
            ]),
        ]),
    ]);
    assert_eq!(get_features(&data), Err(AvifInfoError::InvalidFile));
}

#[test]
fn large_primary_item_id() {
    let data = concat(&[
        ftyp_box(),
        meta_box(&[
            hdlr_box(),
            pitm_box(256),
            iinf_box(&[infe_box(1, b"av01")]),
            iprp_box(&[
                ipco_box(&[ispe_box(1, 1), pixi_box(&[8, 8, 8])]),
                ipma_box(&[(1, &[1, 2])]),
            ]),
        ]),
    ]);
    assert_eq!(get_features(&data), Err(AvifInfoError::TooComplex));
}

#[test]
fn ispe_size_zeroed_inside_meta() {
    // A zero box size is only allowed at the top level.
    let mut data = avif_1x1();
    let at = find(&data, b"ispe") - 4;
    data[at..at + 4].copy_from_slice(&be32(0));
    assert_eq!(get_features(&data), Err(AvifInfoError::InvalidFile));
}

#[test]
fn meta_size_zeroed_runs_to_end_of_file() {
    // A top-level `meta` of size zero extends to the end of the file and
    // still resolves to the same features.
    let mut data = avif_1x1();
    let at = find(&data, b"meta") - 4;
    data[at..at + 4].copy_from_slice(&be32(0));
    assert_eq!(get_features(&data), Ok(expected_1x1()));
}

/// `ipma` version 0 with flags bit 0 set: 16-bit association values.
fn ipma_box_wide(entries: &[(u16, &[u16])]) -> Vec<u8> {
    let mut content = be32(entries.len() as u32);
    for (item_id, associations) in entries {
        content.extend_from_slice(&be16(*item_id));
        content.push(associations.len() as u8);
        for a in *associations {
            content.extend_from_slice(&be16(*a));
        }
    }
    full(b"ipma", 0, 1, &content)
}

/// `ipma` version 1: 32-bit item ids, one byte per association.
fn ipma_box_v1(entries: &[(u32, &[u8])]) -> Vec<u8> {
    let mut content = be32(entries.len() as u32);
    for (item_id, associations) in entries {
        content.extend_from_slice(&be32(*item_id));
        content.push(associations.len() as u8);
        content.extend_from_slice(associations);
    }
    full(b"ipma", 1, 0, &content)
}

/// `iinf` version 1: 32-bit entry count.
fn iinf_box_v1(entries: &[Vec<u8>]) -> Vec<u8> {
    let mut content = be32(entries.len() as u32);
    content.extend_from_slice(&concat(entries));
    full(b"iinf", 1, 0, &content)
}

#[test]
fn tile_supplies_channel_info() {
    // The primary item has only its dimensions; bit depth and channel count
    // come from a tile reached through `dimg`.
    let data = concat(&[
        ftyp_box(),
        meta_box(&[
            hdlr_box(),
            pitm_box(1),
            iinf_box(&[infe_box(1, b"av01"), infe_box(5, b"av01")]),
            iref_box(&[dimg_box(1, &[5])]),
            iprp_box(&[
                ipco_box(&[ispe_box(8, 8), pixi_box(&[8, 8, 8])]),
                ipma_box(&[(1, &[1]), (5, &[2])]),
            ]),
        ]),
    ]);
    let f = get_features(&data).unwrap();
    assert_eq!((f.width, f.height), (8, 8));
    assert_eq!(f.bit_depth, 8);
    assert_eq!(f.num_channels, 3);
}

#[test]
fn ipma_two_byte_indices() {
    // Association values on two bytes, with the essential bit set on one.
    let data = concat(&[
        ftyp_box(),
        meta_box(&[
            hdlr_box(),
            pitm_box(1),
            iinf_box(&[infe_box(1, b"av01")]),
            iprp_box(&[
                ipco_box(&[ispe_box(1, 1), pixi_box(&[8, 8, 8]), av1c_box(false, false, false)]),
                ipma_box_wide(&[(1, &[0x8001, 2, 3])]),
            ]),
        ]),
    ]);
    assert_eq!(get_features(&data), Ok(expected_1x1()));
}

#[test]
fn ipma_version1_ids() {
    let data = concat(&[
        ftyp_box(),
        meta_box(&[
            hdlr_box(),
            pitm_box(1),
            iinf_box(&[infe_box(1, b"av01")]),
            iprp_box(&[
                ipco_box(&[ispe_box(1, 1), pixi_box(&[8, 8, 8]), av1c_box(false, false, false)]),
                ipma_box_v1(&[(1, &[1, 2, 3])]),
            ]),
        ]),
    ]);
    assert_eq!(get_features(&data), Ok(expected_1x1()));
}

#[test]
fn iinf_version1_count() {
    let data = concat(&[
        ftyp_box(),
        meta_box(&[
            hdlr_box(),
            pitm_box(1),
            iinf_box_v1(&[infe_box(1, b"av01")]),
            iprp_box(&[
                ipco_box(&[ispe_box(1, 1), pixi_box(&[8, 8, 8]), av1c_box(false, false, false)]),
                ipma_box(&[(1, &[1, 2, 3])]),
            ]),
        ]),
    ]);
    assert_eq!(get_features(&data), Ok(expected_1x1()));
}

#[test]
fn skipped_record_too_complex() {
    // The only association names an item id that does not fit eight bits, so
    // it is skipped; nothing resolves, and the skip makes that TooComplex
    // rather than InvalidFile.
    let data = concat(&[
        ftyp_box(),
        meta_box(&[
            hdlr_box(),
            pitm_box(1),
            iinf_box(&[infe_box(1, b"av01")]),
            iprp_box(&[
                ipco_box(&[ispe_box(1, 1), pixi_box(&[8, 8, 8])]),
                ipma_box(&[(256, &[1, 2])]),
            ]),
        ]),
    ]);
    assert_eq!(get_features(&data), Err(AvifInfoError::TooComplex));
}

#[test]
fn avis_brand_identified() {
    let mut content = Vec::new();
    content.extend_from_slice(b"mif1");
    content.extend_from_slice(&[0, 0, 0, 0]);
    content.extend_from_slice(b"avis");
    let data = bx(b"ftyp", &content);
    assert_eq!(identify(&data), Ok(()));
}

#[test]
fn no_avif_brand_invalid() {
    let mut content = Vec::new();
    content.extend_from_slice(b"mif1");
    content.extend_from_slice(&[0, 0, 0, 0]);
    content.extend_from_slice(b"mif1heic");
    let data = bx(b"ftyp", &content);
    assert_eq!(identify(&data), Err(AvifInfoError::InvalidFile));
}

#[test]
fn many_brands_too_complex() {
    let mut content = Vec::new();
    for _ in 0..40 {
        content.extend_from_slice(b"mif1");
    }
    let data = bx(b"ftyp", &content);
    assert_eq!(identify(&data), Err(AvifInfoError::TooComplex));
}

#[test]
fn iinf_count_bigger_than_box() {
    // The announced entry count exceeds the box contents; the `iinf` walk
    // stops silently and the features still resolve.
    let mut iinf = iinf_box(&[infe_box(1, b"av01")]);
    let at = 12; // 16-bit entry count right after the full-box header
    iinf[at..at + 2].copy_from_slice(&be16(9));
    let data = concat(&[
        ftyp_box(),
        meta_box(&[
            hdlr_box(),
            pitm_box(1),
            iinf,
            iprp_box(&[
                ipco_box(&[ispe_box(1, 1), pixi_box(&[8, 8, 8]), av1c_box(false, false, false)]),
                ipma_box(&[(1, &[1, 2, 3])]),
            ]),
        ]),
    ]);
    assert_eq!(get_features(&data), Ok(expected_1x1()));
}

#[test]
fn essential_association_bit_ignored() {
    let mut data = avif_1x1();
    // Set the essential bit on the first association (property 1, `ispe`).
    let at = find(&data, b"ipma") + 4 + 4 + 4 + 2 + 1;
    assert_eq!(data[at], 1);
    data[at] = 0x81;
    assert_eq!(get_features(&data), Ok(expected_1x1()));
}
