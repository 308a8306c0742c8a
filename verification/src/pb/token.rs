//! The text layer of a pipeline token: the binary encoding of the pipeline in
//! unpadded base64 with the URL-safe alphabet, so that a token fits into one
//! path segment.

use vstd::prelude::*;
use crate::pb::ops::{ImageSpec, Op};
use crate::pb::parse::{from_wire, lemma_pipeline_at_wire, pipeline_at};
use crate::pb::wire::{to_wire, wire};

verus! {

/// `base64::DecodeError`: why text is not base64.
#[verifier::external_type_specification]
#[verifier::external_body]
pub struct ExDecodeError(base64::DecodeError);

/// The text that unpadded URL-safe base64 gives for `data`: what
/// `base64::Engine::encode` returns on the engine `URL_SAFE_NO_PAD`.
pub uninterp spec fn base64_text(data: Seq<u8>) -> Seq<char>;

/// The bytes that `text` stands for in unpadded URL-safe base64, if it is
/// well formed: what `base64::Engine::decode` returns on the engine
/// `URL_SAFE_NO_PAD`.
pub uninterp spec fn base64_bytes(text: Seq<char>) -> Option<Seq<u8>>;

/// The characters of the URL-safe base64 alphabet.
pub open spec fn url_safe(c: char) -> bool {
    ||| 'A' <= c <= 'Z'
    ||| 'a' <= c <= 'z'
    ||| '0' <= c <= '9'
    ||| c == '-'
    ||| c == '_'
}

/// The longest input whose base64 text still has a length that fits.
pub open spec fn max_payload() -> int {
    usize::MAX / 4 * 3
}

/// Calls `base64::Engine::encode` on the engine `URL_SAFE_NO_PAD`.
///
/// Trusted: the result is the base64 text of `data`, it is made of the
/// URL-safe alphabet alone, and the same engine decodes it back to `data`.
/// The call panics where the text's length overflows, which the
/// precondition leaves out.
#[verifier::external_body]
fn base64_encode(data: &[u8]) -> (text: String)
    requires
        data@.len() <= max_payload(),
    ensures
        text@ == base64_text(data@),
        base64_bytes(text@) == Some(data@),
        forall|i: int| 0 <= i < text@.len() ==> url_safe(#[trigger] text@[i]),
{
    base64::Engine::encode(&base64::prelude::BASE64_URL_SAFE_NO_PAD, data)
}

/// Calls `base64::Engine::decode` on the engine `URL_SAFE_NO_PAD`.
///
/// Trusted: the call succeeds exactly on well-formed text and then returns
/// the bytes that the text stands for.
#[verifier::external_body]
fn base64_decode(text: &str) -> (r: Result<Vec<u8>, base64::DecodeError>)
    ensures
        match r {
            Ok(data) => base64_bytes(text@) == Some(data@),
            Err(_) => base64_bytes(text@) is None,
        },
{
    base64::Engine::decode(&base64::prelude::BASE64_URL_SAFE_NO_PAD, text)
}

/// Why a token was refused.
#[derive(Clone, Copy, Debug, PartialEq, Eq, Structural)]
pub enum TokenDecodeError {
    /// The token is not unpadded URL-safe base64.
    Text,
    /// The bytes of the token are not the encoding of a pipeline.
    Pipeline,
}

/// The pipeline that a token stands for, if it stands for one.
pub open spec fn pipeline_of(token: Seq<char>) -> Option<Seq<Op>> {
    match base64_bytes(token) {
        Some(bytes) => pipeline_at(bytes),
        None => None,
    }
}

impl ImageSpec {
    /// The token of this pipeline. Equal pipelines give equal tokens, and
    /// decoding the token gives the pipeline back.
    pub fn encode(&self) -> (token: String)
        requires
            wire(self@).len() <= max_payload(),
        ensures
            token@ == base64_text(wire(self@)),
            pipeline_of(token@) == Some(self@),
            forall|i: int| 0 <= i < token@.len() ==> url_safe(#[trigger] token@[i]),
    {
        let data = to_wire(self.specs.as_slice());
        proof {
            lemma_pipeline_at_wire(self@);
        }
        base64_encode(data.as_slice())
    }

    /// The token of this pipeline, or nothing where the pipeline is too long
    /// for its token to be held.
    pub fn try_encode(&self) -> (r: Option<String>)
        ensures
            match r {
                Some(token) => wire(self@).len() <= max_payload() && token@ == base64_text(
                    wire(self@),
                ) && pipeline_of(token@) == Some(self@) && forall|i: int|
                    0 <= i < token@.len() ==> url_safe(#[trigger] token@[i]),
                None => wire(self@).len() > max_payload(),
            },
    {
        let data = to_wire(self.specs.as_slice());
        if data.len() <= usize::MAX / 4 * 3 {
            proof {
                lemma_pipeline_at_wire(self@);
            }
            Some(base64_encode(data.as_slice()))
        } else {
            None
        }
    }

    /// Reads a pipeline from its token. A token that is not base64 text, or
    /// whose bytes are not the encoding of a pipeline, is refused; no
    /// operation is ever dropped.
    pub fn decode(token: &str) -> (r: Result<ImageSpec, TokenDecodeError>)
        ensures
            match r {
                Ok(pipeline) => pipeline_of(token@) == Some(pipeline@) && base64_bytes(token@)
                    == Some(wire(pipeline@)),
                Err(TokenDecodeError::Text) => base64_bytes(token@) is None,
                Err(TokenDecodeError::Pipeline) => base64_bytes(token@) is Some && pipeline_of(
                    token@,
                ) is None,
            },
    {
        match base64_decode(token) {
            Ok(data) => match from_wire(data.as_slice()) {
                Some(specs) => Ok(ImageSpec { specs }),
                None => Err(TokenDecodeError::Pipeline),
            },
            Err(_) => Err(TokenDecodeError::Text),
        }
    }
}

impl TryFrom<&str> for ImageSpec {
    type Error = TokenDecodeError;

    fn try_from(token: &str) -> (r: Result<ImageSpec, TokenDecodeError>)
        ensures
            match r {
                Ok(pipeline) => pipeline_of(token@) == Some(pipeline@),
                Err(TokenDecodeError::Text) => base64_bytes(token@) is None,
                Err(TokenDecodeError::Pipeline) => base64_bytes(token@) is Some && pipeline_of(
                    token@,
                ) is None,
            },
    {
        ImageSpec::decode(token)
    }
}

impl vstd::std_specs::convert::TryFromSpecImpl<&str> for ImageSpec {
    open spec fn obeys_try_from_spec() -> bool {
        false
    }

    open spec fn try_from_spec(token: &str) -> Result<ImageSpec, TokenDecodeError> {
        Err(TokenDecodeError::Text)
    }
}

/// Different pipelines have different tokens: two tokens, each of which
/// stands for the pipeline it was made of as [`ImageSpec::encode`] ensures,
/// are the same only where the pipelines are. Pipelines that differ in
/// length, in the order of two operations or in any field are different.
pub proof fn law_tokens_differ(
    first: Seq<Op>,
    second: Seq<Op>,
    first_token: Seq<char>,
    second_token: Seq<char>,
)
    requires
        pipeline_of(first_token) == Some(first),
        pipeline_of(second_token) == Some(second),
        first != second,
    ensures
        first_token != second_token,
{
}

/// Decoding undoes encoding: a token whose bytes are the encoding of a
/// pipeline stands for that pipeline.
pub proof fn law_round_trip(ops: Seq<Op>, token: Seq<char>)
    requires
        wire(ops).len() <= usize::MAX,
        base64_bytes(token) == Some(wire(ops)),
    ensures
        pipeline_of(token) == Some(ops),
{
    lemma_pipeline_at_wire(ops);
}

} // verus!
