use vstd::prelude::*;
use crate::stream::be_val;

verus! {

/// Be reasonable: bound the work done for one payload, whatever it holds.
pub const AVIFINFO_MAX_NUM_BOXES: u32 = 4096;

/// Item identifiers and property indices are narrowed to 8 bits.
pub const AVIFINFO_MAX_VALUE: u8 = 255;

/// Maximum number of stored tile references. Past that, they are skipped.
pub const AVIFINFO_MAX_TILES: usize = 16;

/// Maximum number of stored property associations. Past that, they are skipped.
pub const AVIFINFO_MAX_PROPS: usize = 32;

/// Maximum number of stored dimension or channel records.
pub const AVIFINFO_MAX_FEATURES: usize = 8;

/// Sentinel for a feature value that has not been found yet.
pub const AVIFINFO_UNDEFINED: u8 = 0;

/// Image metadata extracted from an AVIF payload.
#[derive(Debug, Default, PartialEq, Eq, Structural, Clone, Copy)]
pub struct Features {
    /// In number of pixels. Ignores crop and rotation.
    pub width: u32,
    pub height: u32,

    /// Likely 8, 10 or 12 bits per channel per pixel.
    pub bit_depth: u8,

    /// Likely 1, 2, 3 or 4 channels: (1 monochrome or 3 colors) + (0 or 1 alpha).
    pub num_channels: u8,

    /// True if a gain map was found.
    pub has_gainmap: bool,

    /// Id of the gain map item, if any. If there are several, one of them,
    /// arbitrarily chosen.
    pub gainmap_item_id: u8,

    /// Start location in bytes of the primary item id, relative to the
    /// beginning of the given payload. The primary item id is a big-endian
    /// number stored on bytes `primary_item_id_location` to
    /// `primary_item_id_location + primary_item_id_bytes - 1` inclusive.
    pub primary_item_id_location: usize,

    /// Number of bytes of the primary item id.
    pub primary_item_id_bytes: u8,
}

/// One item-to-tile reference taken from a `dimg` entry.
#[derive(Debug, Clone, Copy)]
pub struct InternalTile {
    pub tile_item_id: u8,
    pub parent_item_id: u8,
    /// Index of this association in the `dimg` box (0-based).
    pub dimg_idx: u8,
}

/// One item-to-property association taken from an `ipma` entry.
#[derive(Debug, Clone, Copy)]
pub struct InternalProp {
    pub property_index: u8,
    pub item_id: u8,
}

/// Width and height carried by one `ispe` property.
#[derive(Debug, Clone, Copy)]
pub struct InternalDimProp {
    pub property_index: u8,
    pub width: u32,
    pub height: u32,
}

/// Bit depth and channel count carried by one `pixi` or `av1C` property.
#[derive(Debug, Clone, Copy)]
pub struct InternalChanProp {
    pub property_index: u8,
    pub bit_depth: u8,
    pub num_channels: u8,
}

/// The mathematical state of the accumulator: every field of
/// `InternalFeatures`, with the record tables as sequences.
pub ghost struct GAcc {
    pub has_primary_item: bool,
    pub has_alpha: bool,
    pub gainmap_property_index: u8,
    pub primary_item_id: u8,
    pub primary_item_features: Features,
    pub data_was_skipped: bool,
    pub tone_mapped_item_id: u8,
    pub iinf_parsed: bool,
    pub iref_parsed: bool,
    pub tiles: Seq<InternalTile>,
    pub props: Seq<InternalProp>,
    pub dim_props: Seq<InternalDimProp>,
    pub chan_props: Seq<InternalChanProp>,
}

impl GAcc {
    /// A fresh accumulator: nothing seen yet.
    pub open spec fn init() -> Self {
        GAcc {
            has_primary_item: false,
            has_alpha: false,
            gainmap_property_index: 0,
            primary_item_id: 0,
            primary_item_features: Features {
                width: 0,
                height: 0,
                bit_depth: 0,
                num_channels: 0,
                has_gainmap: false,
                gainmap_item_id: 0,
                primary_item_id_location: 0,
                primary_item_id_bytes: 0,
            },
            data_was_skipped: false,
            tone_mapped_item_id: 0,
            iinf_parsed: false,
            iref_parsed: false,
            tiles: Seq::empty(),
            props: Seq::empty(),
            dim_props: Seq::empty(),
            chan_props: Seq::empty(),
        }
    }

    /// The fixed capacities of the record tables are respected.
    pub open spec fn bounds_ok(self) -> bool {
        &&& self.tiles.len() <= AVIFINFO_MAX_TILES
        &&& self.props.len() <= AVIFINFO_MAX_PROPS
        &&& self.dim_props.len() <= AVIFINFO_MAX_FEATURES
        &&& self.chan_props.len() <= AVIFINFO_MAX_FEATURES
    }

    /// Every stored record carries values the per-box parsers accept:
    /// dimensions are nonzero, bit depths are nonzero, channel counts are
    /// between 1 and 3.
    pub open spec fn records_ok(self) -> bool {
        &&& forall|i: int|
            0 <= i < self.dim_props.len() ==> (#[trigger] self.dim_props[i]).width != 0
                && self.dim_props[i].height != 0
        &&& forall|i: int|
            0 <= i < self.chan_props.len() ==> (#[trigger] self.chan_props[i]).bit_depth != 0
                && 1 <= self.chan_props[i].num_channels <= 3
    }

    /// While the box tree is still being walked, the alpha channel has not
    /// been added to the channel count yet.
    pub open spec fn state_ok(self) -> bool {
        &&& self.primary_item_features.num_channels <= 3
        &&& InternalFeatures::gainmap_ok(self.primary_item_features)
    }

    /// Invariant of the accumulator between any two parsing steps.
    pub open spec fn wf(self) -> bool {
        &&& self.bounds_ok()
        &&& self.records_ok()
        &&& self.state_ok()
    }

    /// What holds of the accumulator when parsing stops successfully: the
    /// primary item was designated and all its features were deduced.
    pub open spec fn resolved_ok(self) -> bool {
        &&& self.bounds_ok()
        &&& self.records_ok()
        &&& self.has_primary_item
        &&& self.primary_item_features.width != 0
        &&& self.primary_item_features.height != 0
        &&& self.primary_item_features.bit_depth != 0
        &&& 1 <= self.primary_item_features.num_channels <= 4
        &&& InternalFeatures::gainmap_ok(self.primary_item_features)
    }

    /// Once `pitm` was parsed, the recorded location indexes the original
    /// buffer `orig` such that the `primary_item_id_bytes` bytes there,
    /// interpreted big-endian, are the primary item id.
    pub open spec fn pitm_ok(self, orig: Seq<u8>) -> bool {
        self.has_primary_item ==> {
            let loc = self.primary_item_features.primary_item_id_location as int;
            let k = self.primary_item_features.primary_item_id_bytes as int;
            &&& (k == 2 || k == 4)
            &&& loc + k <= orig.len()
            &&& be_val(orig.subrange(loc, loc + k)) == self.primary_item_id as int
        }
    }
}

/// Everything accumulated while walking the box tree, from which the primary
/// item's features are deduced.
pub struct InternalFeatures {
    /// True if `pitm` was parsed.
    pub has_primary_item: bool,
    /// True if an alpha `auxC` was parsed.
    pub has_alpha: bool,
    /// Index of the gain map `auxC` property, 0 if none.
    pub gainmap_property_index: u8,
    pub primary_item_id: u8,
    /// Deduced from the records below.
    pub primary_item_features: Features,
    /// True if some entries or indices were skipped for being out of bounds.
    pub data_was_skipped: bool,
    /// Id of the Tone-Mapped Image item, > 0 if present.
    pub tone_mapped_item_id: u8,
    /// True if the `iinf` (item info) box was parsed.
    pub iinf_parsed: bool,
    /// True if the `iref` (item reference) box was parsed.
    pub iref_parsed: bool,

    pub tiles: Vec<InternalTile>,
    pub props: Vec<InternalProp>,
    pub dim_props: Vec<InternalDimProp>,
    pub chan_props: Vec<InternalChanProp>,
}

impl InternalFeatures {
    /// The mathematical state of this accumulator.
    pub open spec fn acc(self) -> GAcc {
        GAcc {
            has_primary_item: self.has_primary_item,
            has_alpha: self.has_alpha,
            gainmap_property_index: self.gainmap_property_index,
            primary_item_id: self.primary_item_id,
            primary_item_features: self.primary_item_features,
            data_was_skipped: self.data_was_skipped,
            tone_mapped_item_id: self.tone_mapped_item_id,
            iinf_parsed: self.iinf_parsed,
            iref_parsed: self.iref_parsed,
            tiles: self.tiles@,
            props: self.props@,
            dim_props: self.dim_props@,
            chan_props: self.chan_props@,
        }
    }

    /// The fixed capacities of the record tables are respected.
    pub open spec fn bounds_ok(self) -> bool {
        self.acc().bounds_ok()
    }

    /// Every stored record carries values the per-box parsers accept.
    pub open spec fn records_ok(self) -> bool {
        self.acc().records_ok()
    }

    /// A gain map item id is only reported together with the gain map flag.
    pub open spec fn gainmap_ok(pf: Features) -> bool {
        !pf.has_gainmap ==> pf.gainmap_item_id == 0
    }

    /// While the box tree is still being walked, the alpha channel has not
    /// been added to the channel count yet.
    pub open spec fn state_ok(self) -> bool {
        self.acc().state_ok()
    }

    /// Invariant of the accumulator between any two parsing steps.
    pub open spec fn wf(self) -> bool {
        self.acc().wf()
    }

    /// What holds of the accumulator when parsing stops successfully.
    pub open spec fn resolved_ok(self) -> bool {
        self.acc().resolved_ok()
    }

    /// Once `pitm` was parsed, the recorded location indexes the original
    /// buffer `orig` such that the `primary_item_id_bytes` bytes there,
    /// interpreted big-endian, are the primary item id.
    pub open spec fn pitm_ok(self, orig: Seq<u8>) -> bool {
        self.acc().pitm_ok(orig)
    }

    /// A fresh accumulator: nothing seen yet.
    pub fn new() -> (r: Self)
        ensures
            r.wf(),
            !r.has_primary_item,
            !r.has_alpha,
            r.gainmap_property_index == 0,
            r.primary_item_id == 0,
            r.primary_item_features == (Features {
                width: 0,
                height: 0,
                bit_depth: 0,
                num_channels: 0,
                has_gainmap: false,
                gainmap_item_id: 0,
                primary_item_id_location: 0,
                primary_item_id_bytes: 0,
            }),
            !r.data_was_skipped,
            r.tone_mapped_item_id == 0,
            !r.iinf_parsed,
            !r.iref_parsed,
            r.tiles@.len() == 0,
            r.props@.len() == 0,
            r.dim_props@.len() == 0,
            r.chan_props@.len() == 0,
            forall|orig: Seq<u8>| r.pitm_ok(orig),
            r.acc() == GAcc::init(),
    {
        InternalFeatures {
            has_primary_item: false,
            has_alpha: false,
            gainmap_property_index: 0,
            primary_item_id: 0,
            primary_item_features: Features {
                width: 0,
                height: 0,
                bit_depth: 0,
                num_channels: 0,
                has_gainmap: false,
                gainmap_item_id: 0,
                primary_item_id_location: 0,
                primary_item_id_bytes: 0,
            },
            data_was_skipped: false,
            tone_mapped_item_id: 0,
            iinf_parsed: false,
            iref_parsed: false,
            tiles: Vec::new(),
            props: Vec::new(),
            dim_props: Vec::new(),
            chan_props: Vec::new(),
        }
    }
}

} // verus!
