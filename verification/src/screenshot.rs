//! Decoding a screenshot handed over as a `data:` URL.
//!
//! The frontend captures a PNG and sends it as
//! `data:image/png;base64,<payload>`.  This module checks the prefix and
//! decodes the payload to raw PNG bytes; writing those bytes to disk is the
//! host's business.

use base64::Engine;
use vstd::prelude::*;

verus! {

/// Why a data URL was rejected.
#[derive(Debug, Clone, PartialEq, Eq)]
pub enum ScreenshotError {
    /// The input does not start with `data:image/png;base64,`.
    InvalidFormat,
    /// The payload after the prefix is not valid base64.
    DecodeFailed,
}

/// What the standard base64 alphabet decodes a byte string to, if
/// anything.  Stated, not defined: the algorithm lives in the base64
/// crate, and only the trusted wrapper below speaks for it.
pub uninterp spec fn base64_decoded(s: Seq<u8>) -> Option<Seq<u8>>;

/// Relies on base64's `STANDARD` engine (RFC 4648 alphabet, padded): the
/// outcome is a function of the input bytes alone.
#[verifier::external_body]
fn base64_decode(data: &[u8]) -> (r: Option<Vec<u8>>)
    ensures
        match r {
            Some(v) => base64_decoded(data@) == Some(v@),
            None => base64_decoded(data@) == None::<Seq<u8>>,
        },
{
    base64::engine::general_purpose::STANDARD.decode(data).ok()
}

/// The bytes of `data:image/png;base64,`.
pub open spec fn png_data_url_prefix() -> Seq<u8> {
    seq![
        100u8, 97u8, 116u8, 97u8, 58u8, 105u8, 109u8, 97u8, 103u8, 101u8, 47u8, 112u8,
        110u8, 103u8, 59u8, 98u8, 97u8, 115u8, 101u8, 54u8, 52u8, 44u8,
    ]
}

/// Whether `s` starts with the PNG data-URL prefix.
pub open spec fn has_png_prefix(s: Seq<u8>) -> bool {
    s.len() >= 22 && s.take(22) == png_data_url_prefix()
}

fn png_prefix_bytes() -> (r: Vec<u8>)
    ensures
        r@ == png_data_url_prefix(),
        r@.len() == 22,
{
    let mut v: Vec<u8> = Vec::new();
    v.push(100);
    v.push(97);
    v.push(116);
    v.push(97);
    v.push(58);
    v.push(105);
    v.push(109);
    v.push(97);
    v.push(103);
    v.push(101);
    v.push(47);
    v.push(112);
    v.push(110);
    v.push(103);
    v.push(59);
    v.push(98);
    v.push(97);
    v.push(115);
    v.push(101);
    v.push(54);
    v.push(52);
    v.push(44);
    proof {
        assert(v@ =~= png_data_url_prefix());
    }
    v
}

fn check_png_prefix(data: &[u8]) -> (r: bool)
    ensures
        r == has_png_prefix(data@),
{
    let prefix = png_prefix_bytes();
    if data.len() < 22 {
        proof {
            assert(!has_png_prefix(data@));
        }
        return false;
    }
    let mut i: usize = 0;
    while i < 22
        invariant
            i <= 22,
            prefix@ == png_data_url_prefix(),
            data@.len() >= 22,
            forall|j: int| 0 <= j < i ==> data@[j] == png_data_url_prefix()[j],
        decreases 22 - i,
    {
        if data[i] != prefix[i] {
            proof {
                assert(data@.take(22)[i as int] == data@[i as int]);
                assert(data@.take(22) != png_data_url_prefix());
            }
            return false;
        }
        i += 1;
    }
    proof {
        assert(data@.take(22) =~= png_data_url_prefix());
    }
    true
}

/// Check the `data:image/png;base64,` prefix and decode the payload after
/// it.  A wrong prefix is rejected without decoding; a correct prefix with
/// an undecodable payload is a decode failure; otherwise the raw PNG bytes
/// come back.
pub fn decode_screenshot_data(image_data: &[u8]) -> (r: Result<Vec<u8>, ScreenshotError>)
    ensures
        match r {
            Ok(v) => has_png_prefix(image_data@) && base64_decoded(image_data@.skip(22))
                == Some(v@),
            Err(e) => match e {
                ScreenshotError::InvalidFormat => !has_png_prefix(image_data@),
                ScreenshotError::DecodeFailed => has_png_prefix(image_data@)
                    && base64_decoded(image_data@.skip(22)) == None::<Seq<u8>>,
            },
        },
{
    if !check_png_prefix(image_data) {
        return Err(ScreenshotError::InvalidFormat);
    }
    let payload = copy_tail(image_data, 22);
    match base64_decode(payload.as_slice()) {
        Some(v) => Ok(v),
        None => Err(ScreenshotError::DecodeFailed),
    }
}

fn copy_tail(s: &[u8], from: usize) -> (r: Vec<u8>)
    requires
        from <= s@.len(),
    ensures
        r@ == s@.skip(from as int),
{
    let mut r: Vec<u8> = Vec::new();
    let mut i: usize = from;
    while i < s.len()
        invariant
            from <= i <= s@.len(),
            r@ =~= s@.subrange(from as int, i as int),
        decreases s@.len() - i,
    {
        r.push(s[i]);
        proof {
            assert(s@.subrange(from as int, i + 1 as int)
                =~= s@.subrange(from as int, i as int).push(s@[i as int]));
        }
        i += 1;
    }
    proof {
        assert(s@.subrange(from as int, s@.len() as int) =~= s@.skip(from as int));
    }
    r
}

} // verus!
