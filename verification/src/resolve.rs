use vstd::prelude::*;
use crate::error::InternalError;
use crate::features::{
    Features, GAcc, InternalChanProp, InternalDimProp, InternalFeatures, InternalProp,
    InternalTile, AVIFINFO_UNDEFINED,
};

verus! {

/// The part of the accumulator that feature resolution reads and never
/// writes: the four record tables and the primary item id.
pub ghost struct RModel {
    pub props: Seq<InternalProp>,
    pub dims: Seq<InternalDimProp>,
    pub chans: Seq<InternalChanProp>,
    pub tiles: Seq<InternalTile>,
    pub primary: u8,
}

impl InternalFeatures {
    pub open spec fn rmodel(self) -> RModel {
        self.acc().rmodel()
    }
}

impl GAcc {
    pub open spec fn rmodel(self) -> RModel {
        RModel {
            props: self.props,
            dims: self.dim_props,
            chans: self.chan_props,
            tiles: self.tiles,
            primary: self.primary_item_id,
        }
    }
}

/// First dimension record with the given property index, from position `j` on.
pub open spec fn find_dim(dims: Seq<InternalDimProp>, pi: u8, j: int) -> Option<InternalDimProp>
    decreases dims.len() - j,
    when 0 <= j <= dims.len()
{
    if j >= dims.len() {
        None
    } else if dims[j].property_index == pi {
        Some(dims[j])
    } else {
        find_dim(dims, pi, j + 1)
    }
}

/// First channel record with the given property index, from position `j` on.
pub open spec fn find_chan(chans: Seq<InternalChanProp>, pi: u8, j: int) -> Option<
    InternalChanProp,
>
    decreases chans.len() - j,
    when 0 <= j <= chans.len()
{
    if j >= chans.len() {
        None
    } else if chans[j].property_index == pi {
        Some(chans[j])
    } else {
        find_chan(chans, pi, j + 1)
    }
}

/// First tile whose parent is the tone-mapped item and which is the second
/// `dimg` input of it, from position `j` on: the HEIF-scheme gain map.
pub open spec fn find_tile_gm(tiles: Seq<InternalTile>, tmap: u8, j: int) -> Option<InternalTile>
    decreases tiles.len() - j,
    when 0 <= j <= tiles.len()
{
    if j >= tiles.len() {
        None
    } else if tiles[j].parent_item_id == tmap && tiles[j].dimg_idx == 1 {
        Some(tiles[j])
    } else {
        find_tile_gm(tiles, tmap, j + 1)
    }
}

/// First association with the given property index, from position `j` on:
/// the Adobe-scheme gain map item.
pub open spec fn find_prop_gm(props: Seq<InternalProp>, pi: u8, j: int) -> Option<InternalProp>
    decreases props.len() - j,
    when 0 <= j <= props.len()
{
    if j >= props.len() {
        None
    } else if props[j].property_index == pi {
        Some(props[j])
    } else {
        find_prop_gm(props, pi, j + 1)
    }
}

pub open spec fn with_dims(pf: Features, dp: InternalDimProp) -> Features {
    Features { width: dp.width, height: dp.height, ..pf }
}

pub open spec fn with_chans(pf: Features, cp: InternalChanProp) -> Features {
    Features { bit_depth: cp.bit_depth, num_channels: cp.num_channels, ..pf }
}

/// What one matching association contributes to the still-missing features:
/// whether everything is now known, and the updated features.
pub open spec fn sif_step(m: RModel, pi: u8, target: u8, pf: Features) -> (bool, Features) {
    let dims_active = target == m.primary && (pf.width == 0 || pf.height == 0);
    let dim_hit = if dims_active {
        find_dim(m.dims, pi, 0)
    } else {
        None
    };
    let pf1 = match dim_hit {
        Some(dp) => with_dims(pf, dp),
        None => pf,
    };
    if dim_hit is Some && pf1.bit_depth != 0 && pf1.num_channels != 0 {
        (true, pf1)
    } else {
        let chan_hit = if pf1.bit_depth == 0 || pf1.num_channels == 0 {
            find_chan(m.chans, pi, 0)
        } else {
            None
        };
        let pf2 = match chan_hit {
            Some(cp) => with_chans(pf1, cp),
            None => pf1,
        };
        if chan_hit is Some && pf2.width != 0 && pf2.height != 0 {
            (true, pf2)
        } else {
            (false, pf2)
        }
    }
}

/// Walking the associations of `target` from position `j` on: whether the
/// features were completed, and the updated features.
pub open spec fn sif_props(m: RModel, target: u8, pf: Features, j: int) -> (bool, Features)
    decreases m.props.len() - j,
    when 0 <= j <= m.props.len()
{
    if j >= m.props.len() {
        (false, pf)
    } else if m.props[j].item_id != target {
        sif_props(m, target, pf, j + 1)
    } else {
        let r = sif_step(m, m.props[j].property_index, target, pf);
        if r.0 {
            (true, r.1)
        } else {
            sif_props(m, target, r.1, j + 1)
        }
    }
}

/// Resolving the features of `target`, recursing into its tiles up to depth 3.
pub open spec fn sif(m: RModel, target: u8, depth: int, pf: Features) -> (bool, Features)
    decreases 3 - depth, m.tiles.len() + 1,
    when 0 <= depth <= 3
{
    let r = sif_props(m, target, pf, 0);
    if r.0 {
        (true, r.1)
    } else if depth < 3 {
        sif_tiles(m, target, depth, r.1, 0)
    } else {
        (false, r.1)
    }
}

/// Walking the tiles of `target` from position `j` on, recursing into each.
pub open spec fn sif_tiles(m: RModel, target: u8, depth: int, pf: Features, j: int) -> (
    bool,
    Features,
)
    decreases 3 - depth, m.tiles.len() - j,
    when 0 <= depth < 3 && 0 <= j <= m.tiles.len()
{
    if j >= m.tiles.len() {
        (false, pf)
    } else if m.tiles[j].parent_item_id != target {
        sif_tiles(m, target, depth, pf, j + 1)
    } else {
        let r = sif(m, m.tiles[j].tile_item_id, depth + 1, pf);
        if r.0 {
            (true, r.1)
        } else {
            sif_tiles(m, target, depth, r.1, j + 1)
        }
    }
}

/// Exactly what one resolution attempt does to the deduced features: the
/// gain map scans, the give-up conditions, the feature join over tiles, and
/// the alpha channel bump.
pub open spec fn spec_gpif(fx: GAcc) -> (bool, Features) {
    let pf = fx.primary_item_features;
    if !fx.has_primary_item {
        (false, pf)
    } else if fx.dim_props.len() == 0 || fx.chan_props.len() == 0 {
        (false, pf)
    } else {
        let pf1 = if fx.tone_mapped_item_id != 0 {
            match find_tile_gm(fx.tiles, fx.tone_mapped_item_id, 0) {
                Some(t) => Features { has_gainmap: true, gainmap_item_id: t.tile_item_id, ..pf },
                None => pf,
            }
        } else {
            pf
        };
        let pf2 = if !pf1.has_gainmap && fx.gainmap_property_index > 0 {
            match find_prop_gm(fx.props, fx.gainmap_property_index, 0) {
                Some(p) => Features { has_gainmap: true, gainmap_item_id: p.item_id, ..pf1 },
                None => pf1,
            }
        } else {
            pf1
        };
        if !pf2.has_gainmap && (!fx.iinf_parsed || (fx.tone_mapped_item_id != 0
            && !fx.iref_parsed)) {
            (false, pf2)
        } else {
            let r = sif(fx.rmodel(), fx.primary_item_id, 0, pf2);
            if !r.0 {
                (false, r.1)
            } else {
                let pf3 = if fx.has_alpha {
                    Features { num_channels: (r.1.num_channels + 1) as u8, ..r.1 }
                } else {
                    r.1
                };
                (true, pf3)
            }
        }
    }
}

/// Resolution never touches the record tables, only these four feature
/// fields; and whenever it reports completion, all four are known.
pub open spec fn records_ok_m(m: RModel) -> bool {
    &&& forall|i: int|
        0 <= i < m.dims.len() ==> (#[trigger] m.dims[i]).width != 0 && m.dims[i].height != 0
    &&& forall|i: int|
        0 <= i < m.chans.len() ==> (#[trigger] m.chans[i]).bit_depth != 0 && 1 <= m.chans[
            i
        ].num_channels <= 3
}

/// Fields of the features that the join leaves alone, and the bounds it keeps.
pub open spec fn sif_keeps(pf: Features, q: Features) -> bool {
    &&& q.has_gainmap == pf.has_gainmap
    &&& q.gainmap_item_id == pf.gainmap_item_id
    &&& q.primary_item_id_location == pf.primary_item_id_location
    &&& q.primary_item_id_bytes == pf.primary_item_id_bytes
}

pub proof fn lemma_find_dim_in(dims: Seq<InternalDimProp>, pi: u8, j: int)
    requires
        0 <= j <= dims.len(),
    ensures
        find_dim(dims, pi, j) matches Some(dp) ==> exists|k: int|
            0 <= k < dims.len() && dims[k] == dp,
    decreases dims.len() - j,
{
    if j < dims.len() && dims[j].property_index != pi {
        lemma_find_dim_in(dims, pi, j + 1);
    }
}

pub proof fn lemma_find_chan_in(chans: Seq<InternalChanProp>, pi: u8, j: int)
    requires
        0 <= j <= chans.len(),
    ensures
        find_chan(chans, pi, j) matches Some(cp) ==> exists|k: int|
            0 <= k < chans.len() && chans[k] == cp,
    decreases chans.len() - j,
{
    if j < chans.len() && chans[j].property_index != pi {
        lemma_find_chan_in(chans, pi, j + 1);
    }
}

/// The feature join keeps the gain map and location fields, keeps the channel
/// count at most 3, and completes only with all four features known.
pub proof fn lemma_sif_props_state(m: RModel, target: u8, pf: Features, j: int)
    requires
        records_ok_m(m),
        pf.num_channels <= 3,
        0 <= j <= m.props.len(),
    ensures
        ({
            let r = sif_props(m, target, pf, j);
            &&& sif_keeps(pf, r.1)
            &&& r.1.num_channels <= 3
            &&& (r.0 ==> r.1.width != 0 && r.1.height != 0 && r.1.bit_depth != 0 && 1 <= r.1.num_channels <= 3)
        }),
    decreases m.props.len() - j,
{
    if j < m.props.len() {
        if m.props[j].item_id != target {
            lemma_sif_props_state(m, target, pf, j + 1);
        } else {
            let pi = m.props[j].property_index;
            lemma_find_dim_in(m.dims, pi, 0);
            lemma_find_chan_in(m.chans, pi, 0);
            let r = sif_step(m, pi, target, pf);
            assert(r.1.num_channels <= 3);
            if !r.0 {
                lemma_sif_props_state(m, target, r.1, j + 1);
            }
        }
    }
}

pub proof fn lemma_sif_state(m: RModel, target: u8, depth: int, pf: Features)
    requires
        records_ok_m(m),
        pf.num_channels <= 3,
        0 <= depth <= 3,
    ensures
        ({
            let r = sif(m, target, depth, pf);
            &&& sif_keeps(pf, r.1)
            &&& r.1.num_channels <= 3
            &&& (r.0 ==> r.1.width != 0 && r.1.height != 0 && r.1.bit_depth != 0 && 1 <= r.1.num_channels <= 3)
        }),
    decreases 3 - depth, m.tiles.len() + 1,
{
    lemma_sif_props_state(m, target, pf, 0);
    let r = sif_props(m, target, pf, 0);
    if !r.0 && depth < 3 {
        lemma_sif_tiles_state(m, target, depth, r.1, 0);
    }
}

pub proof fn lemma_sif_tiles_state(m: RModel, target: u8, depth: int, pf: Features, j: int)
    requires
        records_ok_m(m),
        pf.num_channels <= 3,
        0 <= depth < 3,
        0 <= j <= m.tiles.len(),
    ensures
        ({
            let r = sif_tiles(m, target, depth, pf, j);
            &&& sif_keeps(pf, r.1)
            &&& r.1.num_channels <= 3
            &&& (r.0 ==> r.1.width != 0 && r.1.height != 0 && r.1.bit_depth != 0 && 1 <= r.1.num_channels <= 3)
        }),
    decreases 3 - depth, m.tiles.len() - j,
{
    if j < m.tiles.len() {
        if m.tiles[j].parent_item_id != target {
            lemma_sif_tiles_state(m, target, depth, pf, j + 1);
        } else {
            lemma_sif_state(m, m.tiles[j].tile_item_id, depth + 1, pf);
            let r = sif(m, m.tiles[j].tile_item_id, depth + 1, pf);
            if !r.0 {
                lemma_sif_tiles_state(m, target, depth, r.1, j + 1);
            }
        }
    }
}

/// A completed resolution reports nonzero dimensions and bit depth, one to
/// four channels, and a gain map id only together with the gain map flag;
/// an incomplete one leaves the accumulator fit for more parsing.
pub proof fn lemma_gpif_state(fx: GAcc)
    requires
        fx.records_ok(),
        fx.state_ok(),
    ensures
        ({
            let r = spec_gpif(fx);
            &&& r.1.primary_item_id_location == fx.primary_item_features.primary_item_id_location
            &&& r.1.primary_item_id_bytes == fx.primary_item_features.primary_item_id_bytes
            &&& InternalFeatures::gainmap_ok(r.1)
            &&& (!r.0 ==> r.1.num_channels <= 3)
            &&& (r.0 ==> r.1.width != 0 && r.1.height != 0 && r.1.bit_depth != 0 && 1 <= r.1.num_channels <= 4)
        }),
{
    assert(records_ok_m(fx.rmodel()));
    if fx.has_primary_item && fx.dim_props.len() > 0 && fx.chan_props.len() > 0 {
        let pf = fx.primary_item_features;
        let pf1 = if fx.tone_mapped_item_id != 0 {
            match find_tile_gm(fx.tiles, fx.tone_mapped_item_id, 0) {
                Some(t) => Features { has_gainmap: true, gainmap_item_id: t.tile_item_id, ..pf },
                None => pf,
            }
        } else {
            pf
        };
        let pf2 = if !pf1.has_gainmap && fx.gainmap_property_index > 0 {
            match find_prop_gm(fx.props, fx.gainmap_property_index, 0) {
                Some(p) => Features { has_gainmap: true, gainmap_item_id: p.item_id, ..pf1 },
                None => pf1,
            }
        } else {
            pf1
        };
        if !(!pf2.has_gainmap && (!fx.iinf_parsed || (fx.tone_mapped_item_id != 0
            && !fx.iref_parsed))) {
            lemma_sif_state(fx.rmodel(), fx.primary_item_id, 0, pf2);
        }
    }
}

/// Resolution is deterministic: any two outcomes that the contract of
/// `get_primary_item_features` allows for the same accumulator are the same
/// outcome, features included.
pub proof fn lemma_resolution_deterministic(fx: GAcc, a: (bool, Features), b: (bool, Features))
    requires
        a == spec_gpif(fx),
        b == spec_gpif(fx),
    ensures
        a == b,
{
}

impl InternalFeatures {
    /// Finds the first dimension record carrying the given property index.
    #[verifier::loop_isolation(false)]
    fn find_dim_index(dim_props: &Vec<InternalDimProp>, pi: u8) -> (r: Option<usize>)
        ensures
            ({
                let f = find_dim(dim_props@, pi, 0);
                match r {
                    Some(i) => i < dim_props@.len() && f == Some(dim_props@[i as int]),
                    None => f is None,
                }
            }),
    {
        let mut i: usize = 0;
        while i < dim_props.len()
            invariant
                i <= dim_props@.len(),
                find_dim(dim_props@, pi, 0) == find_dim(dim_props@, pi, i as int),
            decreases dim_props@.len() - i,
        {
            if dim_props[i].property_index == pi {
                return Some(i);
            }
            i = i + 1;
        }
        None
    }

    /// Finds the first channel record carrying the given property index.
    #[verifier::loop_isolation(false)]
    fn find_chan_index(chan_props: &Vec<InternalChanProp>, pi: u8) -> (r: Option<usize>)
        ensures
            ({
                let f = find_chan(chan_props@, pi, 0);
                match r {
                    Some(i) => i < chan_props@.len() && f == Some(chan_props@[i as int]),
                    None => f is None,
                }
            }),
    {
        let mut i: usize = 0;
        while i < chan_props.len()
            invariant
                i <= chan_props@.len(),
                find_chan(chan_props@, pi, 0) == find_chan(chan_props@, pi, i as int),
            decreases chan_props@.len() - i,
        {
            if chan_props[i].property_index == pi {
                return Some(i);
            }
            i = i + 1;
        }
        None
    }

    /// Finds the first tile record that is the second `dimg` input of the
    /// tone-mapped item.
    #[verifier::loop_isolation(false)]
    fn find_tile_gm_index(tiles: &Vec<InternalTile>, tmap: u8) -> (r: Option<usize>)
        ensures
            ({
                let f = find_tile_gm(tiles@, tmap, 0);
                match r {
                    Some(i) => i < tiles@.len() && f == Some(tiles@[i as int]),
                    None => f is None,
                }
            }),
    {
        let mut i: usize = 0;
        while i < tiles.len()
            invariant
                i <= tiles@.len(),
                find_tile_gm(tiles@, tmap, 0) == find_tile_gm(tiles@, tmap, i as int),
            decreases tiles@.len() - i,
        {
            if tiles[i].parent_item_id == tmap && tiles[i].dimg_idx == 1 {
                return Some(i);
            }
            i = i + 1;
        }
        None
    }

    /// Finds the first association that carries the gain map property.
    #[verifier::loop_isolation(false)]
    fn find_prop_gm_index(props: &Vec<InternalProp>, pi: u8) -> (r: Option<usize>)
        ensures
            ({
                let f = find_prop_gm(props@, pi, 0);
                match r {
                    Some(i) => i < props@.len() && f == Some(props@[i as int]),
                    None => f is None,
                }
            }),
    {
        let mut i: usize = 0;
        while i < props.len()
            invariant
                i <= props@.len(),
                find_prop_gm(props@, pi, 0) == find_prop_gm(props@, pi, i as int),
            decreases props@.len() - i,
        {
            if props[i].property_index == pi {
                return Some(i);
            }
            i = i + 1;
        }
        None
    }

    /// Joins the recorded associations to fill the still-missing features of
    /// `target_item_id`, recursing into its tiles: exactly the step that
    /// `sif` describes.
    #[verifier::loop_isolation(false)]
    pub fn get_item_features(&mut self, target_item_id: u8, tile_depth: u32) -> (r: Result<
        (),
        InternalError,
    >)
        requires
            tile_depth <= 3,
        ensures
            ({
                let r0 = sif(
                    old(self).rmodel(),
                    target_item_id,
                    tile_depth as int,
                    old(self).primary_item_features,
                );
                &&& *final(self) == (InternalFeatures {
                    primary_item_features: r0.1,
                    ..*old(self)
                })
                &&& (match r {
                    Ok(()) => r0.0,
                    Err(e) => !r0.0 && e == InternalError::NotFound,
                })
            }),
        decreases 3 - tile_depth,
    {
        let ghost m = self.rmodel();
        let ghost pf0 = self.primary_item_features;
        let mut prop_item: usize = 0;
        while prop_item < self.props.len()
            invariant
                prop_item <= self.props@.len(),
                *self == (InternalFeatures {
                    primary_item_features: self.primary_item_features,
                    ..*old(self)
                }),
                sif_props(m, target_item_id, pf0, 0) == sif_props(
                    m,
                    target_item_id,
                    self.primary_item_features,
                    prop_item as int,
                ),
            decreases self.props@.len() - prop_item,
        {
            if self.props[prop_item].item_id == target_item_id {
                let property_index = self.props[prop_item].property_index;
                let ghost pf_in = self.primary_item_features;
                let ghost step = sif_step(m, property_index, target_item_id, pf_in);

                // Retrieve the width and height of the primary item if not
                // already done.
                if target_item_id == self.primary_item_id
                    && (self.primary_item_features.width == AVIFINFO_UNDEFINED as u32
                    || self.primary_item_features.height == AVIFINFO_UNDEFINED as u32) {
                    match Self::find_dim_index(&self.dim_props, property_index) {
                        Some(i) => {
                            self.primary_item_features.width = self.dim_props[i].width;
                            self.primary_item_features.height = self.dim_props[i].height;
                            if self.primary_item_features.bit_depth != AVIFINFO_UNDEFINED
                                && self.primary_item_features.num_channels != AVIFINFO_UNDEFINED {
                                return Ok(());
                            }
                        },
                        None => {},
                    }
                }
                // Retrieve the bit depth and number of channels of the target
                // item if not already done.
                if self.primary_item_features.bit_depth == AVIFINFO_UNDEFINED
                    || self.primary_item_features.num_channels == AVIFINFO_UNDEFINED {
                    match Self::find_chan_index(&self.chan_props, property_index) {
                        Some(i) => {
                            self.primary_item_features.bit_depth = self.chan_props[i].bit_depth;
                            self.primary_item_features.num_channels =
                                self.chan_props[i].num_channels;
                            if self.primary_item_features.width != AVIFINFO_UNDEFINED as u32
                                && self.primary_item_features.height != AVIFINFO_UNDEFINED
                                as u32 {
                                return Ok(());
                            }
                        },
                        None => {},
                    }
                }
                proof {
                    assert(!step.0 && self.primary_item_features == step.1);
                }
            }
            prop_item = prop_item + 1;
        }

        // Check for the bit depth and number of channels in a tile if not yet
        // found.
        if tile_depth < 3 {
            let ghost pf1 = self.primary_item_features;
            let mut tile: usize = 0;
            while tile < self.tiles.len()
                invariant
                    tile <= self.tiles@.len(),
                    *self == (InternalFeatures {
                        primary_item_features: self.primary_item_features,
                        ..*old(self)
                    }),
                    sif_tiles(m, target_item_id, tile_depth as int, pf1, 0) == sif_tiles(
                        m,
                        target_item_id,
                        tile_depth as int,
                        self.primary_item_features,
                        tile as int,
                    ),
                decreases self.tiles@.len() - tile,
            {
                if self.tiles[tile].parent_item_id == target_item_id {
                    let tile_item_id = self.tiles[tile].tile_item_id;
                    match self.get_item_features(tile_item_id, tile_depth + 1) {
                        Ok(()) => {
                            return Ok(());
                        },
                        Err(InternalError::NotFound) => {},  // Keep searching.
                        Err(error) => {
                            return Err(error);
                        },
                    }
                }
                tile = tile + 1;
            }
        }
        Err(InternalError::NotFound)
    }

    /// Generates the primary item features from everything recorded so far:
    /// exactly the attempt that `spec_gpif` describes. Reports `NotFound`
    /// when more of the file must be parsed first.
    pub fn get_primary_item_features(&mut self) -> (r: Result<(), InternalError>)
        requires
            old(self).records_ok(),
            old(self).state_ok(),
        ensures
            ({
                let r0 = spec_gpif(old(self).acc());
                &&& *final(self) == (InternalFeatures {
                    primary_item_features: r0.1,
                    ..*old(self)
                })
                &&& (match r {
                    Ok(()) => r0.0,
                    Err(e) => !r0.0 && e == InternalError::NotFound,
                })
            }),
    {
        // Nothing to do without the primary item id.
        if !self.has_primary_item {
            return Err(InternalError::NotFound);
        }
        // Early exit.
        if self.dim_props.len() == 0 || self.chan_props.len() == 0 {
            return Err(InternalError::NotFound);
        }

        // Look for a gain map.
        // HEIF scheme: the gain map is a hidden input of a derived item.
        if self.tone_mapped_item_id != AVIFINFO_UNDEFINED {
            match Self::find_tile_gm_index(&self.tiles, self.tone_mapped_item_id) {
                Some(i) => {
                    self.primary_item_features.has_gainmap = true;
                    self.primary_item_features.gainmap_item_id = self.tiles[i].tile_item_id;
                },
                None => {},
            }
        }
        // Adobe scheme: the gain map is an auxiliary item.
        if !self.primary_item_features.has_gainmap && self.gainmap_property_index > 0 {
            match Self::find_prop_gm_index(&self.props, self.gainmap_property_index) {
                Some(i) => {
                    self.primary_item_features.has_gainmap = true;
                    self.primary_item_features.gainmap_item_id = self.props[i].item_id;
                },
                None => {},
            }
        }
        // If the gain map has not been found but not all of the relevant
        // boxes were seen yet, one might still turn up later: do not stop.
        if !self.primary_item_features.has_gainmap && (!self.iinf_parsed || (self.tone_mapped_item_id
            != AVIFINFO_UNDEFINED && !self.iref_parsed)) {
            return Err(InternalError::NotFound);
        }

        let primary_item_id = self.primary_item_id;
        proof {
            assert(records_ok_m(self.rmodel()));
            lemma_sif_state(self.rmodel(), primary_item_id, 0, self.primary_item_features);
        }
        match self.get_item_features(primary_item_id, 0) {
            Ok(()) => {},
            Err(e) => {
                return Err(e);
            },
        }

        // An alpha `auxC` is parsed before the `ipma` associations, so it is
        // known by now, if any.
        if self.has_alpha {
            self.primary_item_features.num_channels = self.primary_item_features.num_channels + 1;
        }
        Ok(())
    }
}

} // verus!
