use vstd::prelude::*;
use crate::boxes::{parse_box, spec_parse_box, AVIF_4CC, AVIS_4CC, FTYP_4CC};
use crate::error::InternalError;
use crate::stream::{be_val, SModel, Stream};

verus! {

/// Outcome of scanning the brand list of a `ftyp` box of content size `cs`,
/// starting at brand index `i` with the stream in state `s`. Index 1 is the
/// minor version and is skipped; scanning more than 32 brands is refused.
pub open spec fn spec_brand_scan(s: SModel, cs: int, i: int) -> Result<(), InternalError>
    decreases cs / 4 - i,
    when 0 <= i <= cs / 4
{
    if i >= cs / 4 {
        Err(InternalError::Invalid)
    } else if !s.can_read(4) {
        Err(s.read_err(4))
    } else {
        let brand = be_val(s.bytes_at(4));
        let s1 = s.advance(4);
        if i == 1 {
            spec_brand_scan(s1, cs, i + 1)
        } else if brand == AVIF_4CC as int || brand == AVIS_4CC as int {
            if s1.offset + (cs - (i * 4 + 4)) > usize::MAX {
                Err(InternalError::Aborted)
            } else {
                Ok(())
            }
        } else if i > 32 {
            Err(InternalError::Aborted)
        } else {
            spec_brand_scan(s1, cs, i + 1)
        }
    }
}

/// Exactly what checking the file type of stream state `s` yields: `Ok` if
/// and only if a well-formed `ftyp` box of known size starts there and its
/// brand list names `avif` or `avis`.
pub open spec fn spec_parse_ftyp(s: SModel) -> Result<(), InternalError> {
    let g = spec_parse_box(s, 0, 0);
    match g.res {
        Err(e) => Err(e),
        Ok(b) => if b.box_type != FTYP_4CC {
            Err(InternalError::Invalid)
        } else {
            match b.content_size {
                None => Err(InternalError::Invalid),
                Some(cs) => if cs < 8 {
                    Err(InternalError::Invalid)
                } else {
                    spec_brand_scan(s.with_offset(g.offset), cs, 0)
                },
            }
        },
    }
}

/// Checks the file type through the `ftyp` box that must start the stream.
/// A `ftyp` running to the end of the file is invalid, because a `meta` box
/// must follow it.
#[verifier::loop_isolation(false)]
pub fn parse_ftyp(stream: &mut Stream) -> (r: Result<(), InternalError>)
    requires
        old(stream).size is None,
    ensures
        final(stream).same_window(*old(stream)),
        r == spec_parse_ftyp(old(stream).model()),
        r is Ok ==> ({
            let g = spec_parse_box(old(stream).model(), 0, 0);
            &&& g.res matches Ok(b) && b.content_size matches Some(cs) && final(stream).offset
                == g.offset + cs
        }),
{
    let ghost s0 = stream.model();
    let mut num_parsed_boxes: u32 = 0;
    let nesting_level: u32 = 0;
    let box_features = match parse_box(nesting_level, stream, &mut num_parsed_boxes) {
        Ok(b) => b,
        Err(e) => {
            return Err(e);
        },
    };
    if box_features.box_type != FTYP_4CC {
        return Err(InternalError::Invalid);
    }
    let content_size = match box_features.content_size {
        Some(cs) => cs,
        None => {
            return Err(InternalError::Invalid);
        },
    };
    if content_size < 8 {
        return Err(InternalError::Invalid);
    }
    let ghost s_brands = stream.model();
    proof {
        assert(s_brands == s0.with_offset(spec_parse_box(s0, 0, 0).offset));
    }
    let n: usize = content_size / 4;
    let mut i: usize = 0;
    while i < n
        invariant
            i <= n,
            n == content_size / 4,
            stream.same_window(*old(stream)),
            stream.model() == s_brands.advance(4 * i),
            spec_brand_scan(s_brands, content_size as int, 0) == spec_brand_scan(
                stream.model(),
                content_size as int,
                i as int,
            ),
        decreases n - i,
    {
        let ghost cur = stream.model();
        let brand = match stream.read_4cc() {
            Ok(b) => b,
            Err(e) => {
                return Err(e);
            },
        };
        if i != 1 {
            if brand == AVIF_4CC || brand == AVIS_4CC {
                proof {
                    assert(i * 4 + 4 <= content_size) by {
                        assert(i + 1 <= n);
                        assert((i + 1) * 4 <= n * 4);
                        assert(n * 4 <= content_size);
                    }
                }
                match stream.skip(content_size - (i * 4 + 4)) {
                    Ok(()) => {},
                    Err(e) => {
                        return Err(e);
                    },
                }
                return Ok(());
            }
            if i > 32 {
                return Err(InternalError::Aborted);
            }
        }
        proof {
            assert(stream.model() == cur.advance(4));
            assert(stream.model() == s_brands.advance(4 * (i + 1)));
        }
        i = i + 1;
    }
    Err(InternalError::Invalid)
}

} // verus!
