//! The stored form of page content: plain text, kept either bare or
//! behind a `":text:"` tag, decoded back into text for rendering.

use vstd::prelude::*;

verus! {

use vstd::utf8::{decode_utf8, encode_utf8, valid_utf8};
use crate::codec::bytes_eq;

/// Page content as this core understands it; only text exists today.
#[derive(Debug)]
pub enum Body {
    Text(String),
}

/// The tag `":text:"` that may introduce stored text.
pub open spec fn text_tag() -> Seq<u8> {
    seq![58u8, 116, 101, 120, 116, 58]
}

/// True when the stored bytes carry the `":text:"` tag.
pub open spec fn body_is_tagged(b: Seq<u8>) -> bool {
    b.len() >= 6 && b.take(6) == text_tag()
}

/// The bytes that hold the text itself: what follows the tag, or the
/// whole input when there is no tag.
pub open spec fn body_payload(b: Seq<u8>) -> Seq<u8> {
    if body_is_tagged(b) {
        b.skip(6)
    } else {
        b
    }
}

/// True when the stored bytes have an acceptable shape: either they do
/// not begin with a colon at all, or they begin with the full tag.
pub open spec fn body_shape_ok(b: Seq<u8>) -> bool {
    b.len() == 0 || b[0] != 58 || body_is_tagged(b)
}

impl Body {
    /// Decodes stored bytes: input beginning with a colon must carry
    /// the `":text:"` tag; the payload must be text.
    pub fn decode(body: Vec<u8>) -> (r: Result<Body, PageError>)
        ensures
            match r {
                Ok(b) => body_shape_ok(body@) && valid_utf8(body_payload(body@)) && (
                b matches Body::Text(s) && s@ == decode_utf8(body_payload(body@))),
                Err(PageError::Invalid) => !body_shape_ok(body@),
                Err(PageError::FromUtf8(_)) => body_shape_ok(body@) && !valid_utf8(
                    body_payload(body@),
                ),
            },
    {
        if body.len() > 0 && body[0] == 58 {
            let tag: [u8; 6] = [58, 116, 101, 120, 116, 58];
            let tagged = body.len() >= 6 && bytes_eq(
                vstd::slice::slice_subrange(body.as_slice(), 0, 6),
                tag.as_slice(),
            );
            proof {
                assert(tag@ =~= text_tag());
            }
            if tagged {
                proof {
                    assert(body@.subrange(0, 6) =~= body@.take(6));
                }
                let rest = vstd::slice::slice_to_vec(
                    vstd::slice::slice_subrange(body.as_slice(), 6, body.len()),
                );
                proof {
                    assert(rest@ =~= body@.skip(6));
                }
                match String::from_utf8(rest) {
                    Ok(s) => Ok(Body::Text(s)),
                    Err(e) => Err(PageError::FromUtf8(e)),
                }
            } else {
                Err(PageError::Invalid)
            }
        } else {
            match String::from_utf8(body) {
                Ok(s) => Ok(Body::Text(s)),
                Err(e) => Err(PageError::FromUtf8(e)),
            }
        }
    }

    /// Encodes this content for storage, behind the `":text:"` tag.
    /// Decoding the result yields the same text back.
    pub fn encode(&self) -> (r: Vec<u8>)
        ensures
            self matches Body::Text(s) && r@ == text_tag() + encode_utf8(s@),
            body_is_tagged(r@),
            valid_utf8(body_payload(r@)),
            self matches Body::Text(s) && decode_utf8(body_payload(r@)) == s@,
    {
        match self {
            Body::Text(s) => {
                let mut out: Vec<u8> = Vec::new();
                out.push(58);
                out.push(116);
                out.push(101);
                out.push(120);
                out.push(116);
                out.push(58);
                out.extend_from_slice(s.as_str().as_bytes());
                proof {
                    assert(out@ =~= text_tag() + encode_utf8(s@));
                    assert(out@.take(6) =~= text_tag());
                    assert(out@.skip(6) =~= encode_utf8(s@));
                    vstd::utf8::encode_utf8_valid_utf8(s@);
                    vstd::utf8::encode_utf8_decode_utf8(s@);
                }
                out
            },
        }
    }
}

/// Why stored page content failed to decode.
#[derive(Debug)]
pub enum PageError {
    /// The bytes begin with a colon but not with a known tag.
    Invalid,
    /// The payload is not text.
    FromUtf8(std::string::FromUtf8Error),
}

} // verus!
