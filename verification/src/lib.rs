//! Extraction of basic image features (dimensions, bit depth, channel count,
//! gain map identity and the location of the primary item id) from a byte
//! buffer that claims to be an AVIF still image, without decoding any image
//! samples.

use vstd::prelude::*;

mod boxes;
mod error;
mod features;
mod ftyp;
mod parse;
mod resolve;
mod stream;

pub use crate::error::AvifInfoError;
pub use crate::features::Features;

use crate::error::spec_public_error;
use crate::features::{GAcc, InternalFeatures};
use crate::parse::spec_parse_file;
use crate::stream::{be_val, SModel, Stream};

verus! {

/// Exactly what `identify` returns for a buffer holding these bytes.
pub open spec fn spec_identify(data: Seq<u8>) -> Result<(), AvifInfoError> {
    match crate::ftyp::spec_parse_ftyp(SModel::fresh(data)) {
        Ok(()) => Ok(()),
        Err(e) => Err(spec_public_error(e)),
    }
}

/// Identification is deterministic: any two results that `identify`'s
/// contract allows for the same bytes are the same result.
pub proof fn lemma_identify_deterministic(
    data: Seq<u8>,
    r1: Result<(), AvifInfoError>,
    r2: Result<(), AvifInfoError>,
)
    requires
        r1 == spec_identify(data),
        r2 == spec_identify(data),
    ensures
        r1 == r2,
{
}

/// Checks that `data` starts with a well-formed `ftyp` box whose brand list
/// holds `avif` or `avis`. The result is a function of the bytes alone, so
/// repeated calls on the same bytes return identical results.
pub fn identify(data: &[u8]) -> (r: Result<(), AvifInfoError>)
    ensures
        r == spec_identify(data@),
{
    let mut stream = Stream {
        data: Some(data),
        size: None,
        offset: 0,
        orig: Ghost(data@),
        pos: Ghost(0int),
    };
    match crate::ftyp::parse_ftyp(&mut stream) {
        Ok(()) => Ok(()),
        Err(error) => Err(AvifInfoError::from(error)),
    }
}

/// Exactly what `get_features` returns for a buffer holding these bytes:
/// the outcome of walking the box tree from a fresh accumulator, with the
/// internal status mapped to the public error kinds.
pub open spec fn spec_get_features(data: Seq<u8>) -> Result<Features, AvifInfoError> {
    let g = spec_parse_file(SModel::fresh(data), GAcc::init(), 0);
    match g.res {
        Ok(()) => Ok(g.fx.primary_item_features),
        Err(e) => Err(spec_public_error(e)),
    }
}

/// Feature extraction is deterministic: any two results that
/// `get_features`' contract allows for the same bytes are the same result.
pub proof fn lemma_get_features_deterministic(
    data: Seq<u8>,
    r1: Result<Features, AvifInfoError>,
    r2: Result<Features, AvifInfoError>,
)
    requires
        r1 == spec_get_features(data),
        r2 == spec_get_features(data),
    ensures
        r1 == r2,
{
}

/// Extracts the primary image's features from `data` by walking its box
/// tree until the accumulated records resolve them: exactly what
/// `spec_get_features` says of the bytes, so repeated calls on the same
/// bytes return identical results. On success the width, height and bit
/// depth are nonzero, there are one to four channels, a gain map id is only
/// reported together with the gain map flag, and the `primary_item_id_bytes`
/// bytes of `data` at `primary_item_id_location`, read big-endian, are the
/// primary item id whose features are reported.
pub fn get_features(data: &[u8]) -> (r: Result<Features, AvifInfoError>)
    ensures
        r == spec_get_features(data@),
        r matches Ok(f) ==> be_val(
            data@.subrange(
                f.primary_item_id_location as int,
                f.primary_item_id_location + f.primary_item_id_bytes,
            ),
        ) == spec_parse_file(SModel::fresh(data@), GAcc::init(), 0).fx.primary_item_id as int,
        r matches Ok(f) ==> ({
            &&& f.width != 0
            &&& f.height != 0
            &&& f.bit_depth != 0
            &&& 1 <= f.num_channels <= 4
            &&& (f.primary_item_id_bytes == 2 || f.primary_item_id_bytes == 4)
            &&& f.primary_item_id_location + f.primary_item_id_bytes <= data@.len()
            &&& 0 <= be_val(
                data@.subrange(
                    f.primary_item_id_location as int,
                    f.primary_item_id_location + f.primary_item_id_bytes,
                ),
            ) <= 255
            &&& (!f.has_gainmap ==> f.gainmap_item_id == 0)
        }),
{
    let mut features = InternalFeatures::new();
    let mut stream = Stream {
        data: Some(data),
        size: None,
        offset: 0,
        orig: Ghost(data@),
        pos: Ghost(0int),
    };
    proof {
        assert(stream.win() =~= stream.orig@.subrange(0, stream.win().len() as int));
    }
    match features.parse_file(&mut stream) {
        Ok(()) => Ok(features.primary_item_features),
        Err(error) => Err(AvifInfoError::from(error)),
    }
}

} // verus!
