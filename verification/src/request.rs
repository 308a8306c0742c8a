//! The request boundary: the order in which a request is decided, and how
//! its failures are told apart.
//!
//! A request names a pipeline by its token and a source by its locator. The
//! token is read first, so that a bad token touches nothing. Then the cache
//! is asked for the source; on a miss the caller fetches and reports back.
//! The source is opened, the pipeline is run, and the picture is encoded.
//! Waiting for the network is the caller's part; every decision is made
//! here.

use vstd::prelude::*;
use vstd::string::StringExecFns;
use vstd::utf8::{decode_utf8, encode_utf8, is_ascii_chars, valid_utf8};
use crate::cache::{
    inserted, locator_key, stored, touched, value_of, Lookup, RetrievalCache, SourceFetchError,
};
use crate::engine::{
    decoded_image, encoded_image, run, EncodeError, OperationFault, OutputFormat, Photon, Progress,
    Run, SourceDecodeError,
};
use crate::pb::ops::ImageSpec;
use crate::pb::token::{base64_bytes, base64_text, max_payload, pipeline_of, TokenDecodeError};
use crate::pb::wire::wire;

verus! {

/// Why a request failed.
#[derive(Clone, Copy, Debug, PartialEq, Eq, Structural)]
pub enum Failure {
    /// The pipeline token is malformed.
    Token(TokenDecodeError),
    /// The source could not be fetched.
    Fetch(SourceFetchError),
    /// The fetched bytes are not a picture with pixels.
    Source(SourceDecodeError),
    /// An operation of the pipeline cannot be honoured.
    Operation(OperationFault),
    /// The picture cannot be held in the output format.
    Encode(EncodeError),
}

/// Whose fault a failure is.
#[derive(Clone, Copy, Debug, PartialEq, Eq, Structural)]
pub enum Blame {
    Client,
    Server,
}

/// The status of a request that the client got wrong.
pub const STATUS_BAD_REQUEST: u16 = 400;

/// The status of a request that failed on this side.
pub const STATUS_SERVER_ERROR: u16 = 500;

impl Failure {
    /// A bad token and an unfetchable source are the client's; everything
    /// else is the server's.
    pub open spec fn blame_of(self) -> Blame {
        match self {
            Failure::Token(_) => Blame::Client,
            Failure::Fetch(_) => Blame::Client,
            Failure::Source(_) => Blame::Server,
            Failure::Operation(_) => Blame::Server,
            Failure::Encode(_) => Blame::Server,
        }
    }

    pub fn blame(&self) -> (r: Blame)
        ensures
            r == self.blame_of(),
    {
        match self {
            Failure::Token(_) => Blame::Client,
            Failure::Fetch(_) => Blame::Client,
            Failure::Source(_) => Blame::Server,
            Failure::Operation(_) => Blame::Server,
            Failure::Encode(_) => Blame::Server,
        }
    }

    /// The status code under which the failure is reported.
    pub fn status(&self) -> (code: u16)
        ensures
            code == if self.blame_of() == Blame::Client {
                STATUS_BAD_REQUEST
            } else {
                STATUS_SERVER_ERROR
            },
    {
        match self.blame() {
            Blame::Client => STATUS_BAD_REQUEST,
            Blame::Server => STATUS_SERVER_ERROR,
        }
    }
}

/// The number that a hexadecimal digit stands for, in either case.
pub open spec fn hex_value(b: u8) -> Option<int> {
    if 0x30 <= b <= 0x39 {
        Some(b - 0x30)
    } else if 0x41 <= b <= 0x46 {
        Some(b - 0x41 + 10)
    } else if 0x61 <= b <= 0x66 {
        Some(b - 0x61 + 10)
    } else {
        None
    }
}

/// Whether `s` starts with a percent sign and two hexadecimal digits.
pub open spec fn escape_at(s: Seq<u8>) -> bool {
    s.len() >= 3 && s[0] == 0x25 && hex_value(s[1]) is Some && hex_value(s[2]) is Some
}

/// Bytes with every percent sign that two hexadecimal digits follow
/// replaced, together with the digits, by the byte that the digits spell.
pub open spec fn unescaped_bytes(s: Seq<u8>) -> Seq<u8>
    decreases s.len(),
{
    if s.len() == 0 {
        Seq::<u8>::empty()
    } else if escape_at(s) {
        seq![(16 * hex_value(s[1]).unwrap() + hex_value(s[2]).unwrap()) as u8] + unescaped_bytes(
            s.skip(3),
        )
    } else {
        seq![s[0]] + unescaped_bytes(s.skip(1))
    }
}

/// The text that `String::from_utf8_lossy` makes of bytes that are not
/// UTF-8, with a replacement character for what is malformed.
pub uninterp spec fn lossy_text(bytes: Seq<u8>) -> Seq<char>;

/// The text that bytes hold: their text if they are UTF-8, else their text
/// with replacement characters.
pub open spec fn text_of(bytes: Seq<u8>) -> Seq<char> {
    if valid_utf8(bytes) {
        decode_utf8(bytes)
    } else {
        lossy_text(bytes)
    }
}

/// The locator that an escaped locator stands for.
pub open spec fn unescaped(text: Seq<char>) -> Seq<char> {
    text_of(unescaped_bytes(encode_utf8(text)))
}

/// Whether a byte is an ASCII letter or digit.
pub open spec fn alphanumeric(b: u8) -> bool {
    ||| 0x30 <= b <= 0x39
    ||| 0x41 <= b <= 0x5a
    ||| 0x61 <= b <= 0x7a
}

/// The upper-case hexadecimal digit of a number below sixteen.
pub open spec fn hex_digit(n: int) -> char {
    if n < 10 {
        (0x30 + n) as char
    } else {
        (0x41 + n - 10) as char
    }
}

/// A byte as it stands in a path: itself if it is a letter or a digit, else
/// a percent sign and its two hexadecimal digits.
pub open spec fn escaped_byte(b: u8) -> Seq<char> {
    if alphanumeric(b) {
        seq![b as char]
    } else {
        seq!['%', hex_digit(b as int / 16), hex_digit(b as int % 16)]
    }
}

/// Bytes as they stand in a path.
pub open spec fn escaped(bytes: Seq<u8>) -> Seq<char>
    decreases bytes.len(),
{
    if bytes.len() == 0 {
        Seq::<char>::empty()
    } else {
        escaped_byte(bytes[0]) + escaped(bytes.skip(1))
    }
}

/// The bytes of a text of ASCII characters.
pub open spec fn octets(text: Seq<char>) -> Seq<u8> {
    Seq::new(text.len(), |i: int| text[i] as u8)
}

/// The upper-case hexadecimal digit of a number below sixteen.
fn hex_upper(n: u8) -> (c: u8)
    requires
        n < 16,
    ensures
        c == hex_digit(n as int) as u8,
{
    if n < 10 {
        0x30 + n
    } else {
        0x41 + (n - 10)
    }
}

/// The number that a hexadecimal digit stands for.
fn hex_number(b: u8) -> (r: Option<u8>)
    ensures
        match hex_value(b) {
            Some(n) => r == Some(n as u8) && n < 16,
            None => r is None,
        },
{
    if 0x30 <= b && b <= 0x39 {
        Some(b - 0x30)
    } else if 0x41 <= b && b <= 0x46 {
        Some(b - 0x41 + 10)
    } else if 0x61 <= b && b <= 0x66 {
        Some(b - 0x61 + 10)
    } else {
        None
    }
}

/// Escapes bytes for a path: letters and digits stay, and every other byte
/// becomes a percent sign and its two upper-case hexadecimal digits.
pub fn percent_encode(data: &[u8]) -> (text: String)
    ensures
        text@ == escaped(data@),
{
    let mut out: Vec<u8> = Vec::new();
    let mut i: usize = 0;
    assert(data@.skip(0) =~= data@);
    while i < data.len()
        invariant
            0 <= i <= data.len(),
            out@ + octets(escaped(data@.skip(i as int))) == octets(escaped(data@)),
        decreases data.len() - i,
    {
        let b = data[i];
        let ghost before = out@;
        let ghost rest = escaped(data@.skip(i + 1));
        proof {
            assert(data@.skip(i as int).skip(1) =~= data@.skip(i + 1));
            assert(octets(escaped(data@.skip(i as int))) =~= octets(escaped_byte(b)) + octets(
                rest,
            ));
        }
        if (0x30 <= b && b <= 0x39) || (0x41 <= b && b <= 0x5a) || (0x61 <= b && b <= 0x7a) {
            out.push(b);
            assert(out@ =~= before + octets(escaped_byte(b)));
        } else {
            out.push(0x25);
            out.push(hex_upper(b / 16));
            out.push(hex_upper(b % 16));
            assert(out@ =~= before + octets(escaped_byte(b)));
        }
        assert(out@ + octets(rest) =~= before + (octets(escaped_byte(b)) + octets(rest)));
        i += 1;
    }
    proof {
        let whole = escaped(data@);
        assert(out@ =~= out@ + octets(escaped(data@.skip(i as int))));
        lemma_escaped_ascii(data@);
        vstd::utf8::is_ascii_chars_encode_utf8(whole);
        assert(encode_utf8(whole) =~= octets(whole));
        vstd::utf8::encode_utf8_valid_utf8(whole);
        vstd::utf8::encode_utf8_decode_utf8(whole);
    }
    match core::str::from_utf8(out.as_slice()) {
        Ok(text) => {
            proof {
                vstd::utf8::encode_utf8_decode_utf8(text@);
            }
            text.to_owned()
        },
        // escaped bytes are ASCII, so this does not happen
        Err(_) => String::new(),
    }
}

/// Undoes the escapes of a path: a percent sign that two hexadecimal
/// digits follow becomes, with them, the byte that they spell; every other
/// byte stays.
pub fn percent_decode(data: &[u8]) -> (plain: Vec<u8>)
    ensures
        plain@ == unescaped_bytes(data@),
{
    let mut out: Vec<u8> = Vec::new();
    let mut i: usize = 0;
    assert(data@.skip(0) =~= data@);
    while i < data.len()
        invariant
            0 <= i <= data.len(),
            out@ + unescaped_bytes(data@.skip(i as int)) == unescaped_bytes(data@),
        decreases data.len() - i,
    {
        let ghost before = out@;
        let ghost s = data@.skip(i as int);
        assert(s[0] == data@[i as int]);
        let mut spelled: Option<u8> = None;
        if data[i] == 0x25 && data.len() - i >= 3 {
            assert(s[1] == data@[i + 1] && s[2] == data@[i + 2]);
            match (hex_number(data[i + 1]), hex_number(data[i + 2])) {
                (Some(high), Some(low)) => {
                    spelled = Some(16 * high + low);
                },
                _ => {},
            }
        }
        match spelled {
            Some(byte) => {
                assert(escape_at(s));
                assert(s.skip(3) =~= data@.skip(i + 3));
                out.push(byte);
                assert(out@ + unescaped_bytes(data@.skip(i + 3)) =~= before + (seq![byte]
                    + unescaped_bytes(data@.skip(i + 3))));
                i += 3;
            },
            None => {
                assert(!escape_at(s));
                assert(s.skip(1) =~= data@.skip(i + 1));
                out.push(data[i]);
                assert(out@ + unescaped_bytes(data@.skip(i + 1)) =~= before + (seq![s[0]]
                    + unescaped_bytes(data@.skip(i + 1))));
                i += 1;
            },
        }
    }
    assert(out@ =~= out@ + unescaped_bytes(data@.skip(i as int)));
    out
}

/// Calls `String::from_utf8_lossy`.
///
/// Trusted: bytes that are UTF-8 give their text, and other bytes the text
/// that the name stands for.
#[verifier::external_body]
fn utf8_lossy(data: &[u8]) -> (text: String)
    ensures
        valid_utf8(data@) ==> text@ == decode_utf8(data@),
        !valid_utf8(data@) ==> text@ == lossy_text(data@),
{
    String::from_utf8_lossy(data).into_owned()
}

/// The path under which a pipeline on a source is asked for: the token and
/// the escaped locator as two segments.
pub open spec fn path_of(token: Seq<char>, locator: Seq<char>) -> Seq<char> {
    "/image/"@ + token + "/"@ + escaped(encode_utf8(locator))
}

/// The path under which `pipeline` on the source at `locator` is asked for,
/// or nothing where the pipeline is too long for a token.
pub fn image_path(pipeline: &ImageSpec, locator: &str) -> (r: Option<String>)
    ensures
        match r {
            Some(path) => wire(pipeline@).len() <= max_payload() && path@ == path_of(
                base64_text(wire(pipeline@)),
                locator@,
            ),
            None => wire(pipeline@).len() > max_payload(),
        },
{
    match pipeline.try_encode() {
        Some(token) => {
            let source = percent_encode(locator.as_bytes());
            let path = String::from_str("/image/").concat(token.as_str()).concat("/").concat(
                source.as_str(),
            );
            Some(path)
        },
        None => None,
    }
}

/// What is to be done for a request whose token was accepted.
#[derive(Debug, PartialEq, Eq)]
pub enum Plan {
    /// The source was in the cache: the pipeline can be run on it.
    Render { pipeline: ImageSpec, source: Vec<u8> },
    /// The source has to be fetched from `locator`; what comes back is
    /// stored under `key`.
    Fetch { pipeline: ImageSpec, locator: String, key: u64 },
}

/// Decides a request. The token is read first: a bad token is the end and
/// leaves the cache as it was. Then the locator is percent-decoded and
/// looked up.
pub fn receive(token: &str, locator: &str, cache: &mut RetrievalCache) -> (r: Result<Plan, Failure>)
    requires
        old(cache).wf(),
    ensures
        final(cache).wf(),
        final(cache).capacity() == old(cache).capacity(),
        match r {
            Err(failure) => failure matches Failure::Token(reason) && (match reason {
                TokenDecodeError::Text => base64_bytes(token@) is None,
                TokenDecodeError::Pipeline => base64_bytes(token@) is Some && pipeline_of(
                    token@,
                ) is None,
            }) && final(cache).entries() == old(cache).entries(),
            Ok(Plan::Render { pipeline, source }) => pipeline_of(token@) == Some(pipeline@)
                && value_of(old(cache).entries(), locator_key(unescaped(locator@))) == Some(
                source@,
            ) && final(cache).entries() == touched(
                old(cache).entries(),
                locator_key(unescaped(locator@)),
            ),
            Ok(Plan::Fetch { pipeline, locator: plain, key }) => pipeline_of(token@) == Some(
                pipeline@,
            ) && plain@ == unescaped(locator@) && key == locator_key(plain@) && !stored(
                old(cache).entries(),
                key,
            ) && final(cache).entries() == old(cache).entries(),
        },
{
    let pipeline = match ImageSpec::decode(token) {
        Ok(pipeline) => pipeline,
        Err(reason) => {
            return Err(Failure::Token(reason));
        },
    };
    let plain = utf8_lossy(percent_decode(locator.as_bytes()).as_slice());
    match cache.lookup(plain.as_str()) {
        Lookup::Hit(source) => Ok(Plan::Render { pipeline, source }),
        Lookup::Miss(key) => Ok(Plan::Fetch { pipeline, locator: plain, key }),
    }
}

/// Takes in what a fetch gave. Fetched bytes are cached under `key` and
/// handed on; a failed fetch is the client's failure and is not cached.
pub fn fetched(cache: &mut RetrievalCache, key: u64, outcome: Option<Vec<u8>>) -> (r: Result<
    Vec<u8>,
    Failure,
>)
    requires
        old(cache).wf(),
    ensures
        final(cache).wf(),
        final(cache).capacity() == old(cache).capacity(),
        match outcome {
            Some(data) => r matches Ok(source) && source@ == data@ && final(cache).entries()
                == inserted(old(cache).entries(), old(cache).capacity(), key, data@),
            None => r == Err::<Vec<u8>, Failure>(Failure::Fetch(SourceFetchError))
                && final(cache).entries() == old(cache).entries(),
        },
{
    match cache.settle(key, outcome) {
        Ok(source) => Ok(source),
        Err(reason) => Err(Failure::Fetch(reason)),
    }
}

/// Opens the source. Bytes that are no picture are the server's failure:
/// they stay cached, for the fetch itself went well.
pub fn open(source: &[u8]) -> (r: Result<Photon, Failure>)
    ensures
        match r {
            Ok(photon) => decoded_image(source@) == Some(photon@) && photon.wf(),
            Err(failure) => failure matches Failure::Source(reason) && (match reason {
                SourceDecodeError::Unreadable => decoded_image(source@) is None,
                SourceDecodeError::Size => decoded_image(source@) matches Some(raster)
                    && !raster.wf(),
            }),
        },
{
    match Photon::open(source) {
        Ok(photon) => Ok(photon),
        Err(reason) => Err(Failure::Source(reason)),
    }
}

/// Runs the pipeline from index `from` on, as [`Photon::apply`] does.
pub fn advance(engine: &mut Photon, pipeline: &ImageSpec, from: usize, mark: &Photon) -> (r:
    Result<Progress, Failure>)
    requires
        old(engine).wf(),
        mark.wf(),
    ensures
        final(engine).wf(),
        match run(old(engine)@, pipeline@, from as int, mark@) {
            Run::Finished(raster) => r == Ok::<Progress, Failure>(Progress::Finished)
                && final(engine)@ == raster,
            Run::Pending(index, raster) => r == Ok::<Progress, Failure>(
                Progress::Pending { index: index as usize },
            ) && index < pipeline@.len() && final(engine)@ == raster,
            Run::Faulted(index, raster) => r == Err::<Progress, Failure>(
                Failure::Operation(OperationFault { index: index as usize }),
            ) && index < pipeline@.len() && final(engine)@ == raster,
        },
{
    match engine.apply(pipeline.specs.as_slice(), from, mark) {
        Ok(progress) => Ok(progress),
        Err(fault) => Err(Failure::Operation(fault)),
    }
}

/// Encodes the picture and names the content type of the output.
pub fn finish(engine: Photon, format: OutputFormat) -> (r: Result<(Vec<u8>, &'static str), Failure>)
    requires
        engine.wf(),
    ensures
        match r {
            Ok((data, content_type)) => encoded_image(engine@, format) == Some(data@)
                && content_type@ == format.media_type(),
            Err(failure) => failure == Failure::Encode(EncodeError) && encoded_image(
                engine@,
                format,
            ) is None,
        },
{
    match engine.generate(format) {
        Ok(data) => Ok((data, format.content_type())),
        Err(reason) => Err(Failure::Encode(reason)),
    }
}

/// How far the work on a request got.
pub enum Rendering {
    /// The pipeline is through; this is the output and its content type.
    Output { data: Vec<u8>, content_type: &'static str },
    /// The operation at `index` is the caller's to carry out on the picture
    /// that the engine holds; [`resume`] goes on behind it.
    Paused { engine: Photon, index: usize },
}

/// What is made of `raster` by the operations of `ops` from index `from`
/// on and the encoding in `format` that follows them.
pub open spec fn rendered(
    raster: crate::engine::Raster,
    ops: Seq<crate::pb::ops::Op>,
    from: int,
    mark: crate::engine::Raster,
    format: OutputFormat,
    r: Result<Rendering, Failure>,
) -> bool {
    match run(raster, ops, from, mark) {
        Run::Faulted(index, _) => r matches Err(failure) && failure == Failure::Operation(
            OperationFault { index: index as usize },
        ) && index < ops.len(),
        Run::Pending(index, at) => r matches Ok(Rendering::Paused { engine, index: i }) && i
            == index as usize && index < ops.len() && engine@ == at && engine.wf(),
        Run::Finished(done) => match encoded_image(done, format) {
            Some(bytes) => r matches Ok(Rendering::Output { data, content_type }) && data@
                == bytes && content_type@ == format.media_type(),
            None => r matches Err(failure) && failure == Failure::Encode(EncodeError),
        },
    }
}

/// Goes on with a pipeline from index `from` on a picture that is being
/// worked on, and encodes the picture where the pipeline gets through.
pub fn resume(
    engine: Photon,
    pipeline: &ImageSpec,
    from: usize,
    mark: &Photon,
    format: OutputFormat,
) -> (r: Result<Rendering, Failure>)
    requires
        engine.wf(),
        mark.wf(),
    ensures
        rendered(engine@, pipeline@, from as int, mark@, format, r),
{
    let mut engine = engine;
    match advance(&mut engine, pipeline, from, mark) {
        Ok(Progress::Finished) => match finish(engine, format) {
            Ok((data, content_type)) => Ok(Rendering::Output { data, content_type }),
            Err(failure) => Err(failure),
        },
        Ok(Progress::Pending { index }) => Ok(Rendering::Paused { engine, index }),
        Err(failure) => Err(failure),
    }
}

/// Makes the output of a request from its pipeline and the bytes of its
/// source: opens the source, runs the pipeline and encodes the picture. A
/// source that is no picture, an operation that cannot be honoured and a
/// picture that the format cannot hold are the server's failures. Where an
/// operation is the caller's to carry out, the work pauses there.
pub fn generate(pipeline: &ImageSpec, source: &[u8], mark: &Photon, format: OutputFormat) -> (r:
    Result<Rendering, Failure>)
    requires
        mark.wf(),
    ensures
        match decoded_image(source@) {
            None => r matches Err(failure) && failure == Failure::Source(
                SourceDecodeError::Unreadable,
            ),
            Some(raster) => if raster.wf() {
                rendered(raster, pipeline@, 0, mark@, format, r)
            } else {
                r matches Err(failure) && failure == Failure::Source(SourceDecodeError::Size)
            },
        },
        r matches Err(failure) ==> failure.blame_of() == Blame::Server,
{
    match open(source) {
        Ok(engine) => resume(engine, pipeline, 0, mark, format),
        Err(failure) => Err(failure),
    }
}

/// A pipeline with an operation that cannot be honoured, behind operations
/// that were carried out, never gives output: the request fails on the
/// server's side and names the operation.
pub proof fn law_fault_is_a_server_error(
    raster: crate::engine::Raster,
    ops: Seq<crate::pb::ops::Op>,
    mark: crate::engine::Raster,
    format: OutputFormat,
    r: Result<Rendering, Failure>,
)
    requires
        rendered(raster, ops, 0, mark, format, r),
        run(raster, ops, 0, mark) is Faulted,
    ensures
        r matches Err(failure) && failure.blame_of() == Blame::Server && failure
            matches Failure::Operation(_),
{
}

/// Escaped bytes are ASCII text.
proof fn lemma_escaped_ascii(bytes: Seq<u8>)
    ensures
        is_ascii_chars(escaped(bytes)),
    decreases bytes.len(),
{
    if bytes.len() > 0 {
        lemma_escaped_ascii(bytes.skip(1));
        let head = escaped_byte(bytes[0]);
        let tail = escaped(bytes.skip(1));
        assert(is_ascii_chars(head));
        assert forall|i: int| 0 <= i < (head + tail).len() implies '\0' <= #[trigger] (head
            + tail)[i] <= '\u{7f}' by {
            if i < head.len() {
                assert((head + tail)[i] == head[i]);
            } else {
                assert((head + tail)[i] == tail[i - head.len()]);
            }
        }
    }
}

/// Unescaping what was escaped gives the bytes back.
proof fn lemma_unescape_escaped(bytes: Seq<u8>, s: Seq<u8>)
    requires
        s == octets(escaped(bytes)),
    ensures
        unescaped_bytes(s) == bytes,
    decreases bytes.len(),
{
    if bytes.len() == 0 {
        assert(bytes =~= Seq::<u8>::empty());
    } else {
        let b = bytes[0];
        let head = escaped_byte(b);
        let tail = escaped(bytes.skip(1));
        let rest = octets(tail);
        assert(s =~= octets(head) + rest);
        lemma_unescape_escaped(bytes.skip(1), rest);
        if alphanumeric(b) {
            assert(s[0] == b);
            assert(!escape_at(s));
            assert(s.skip(1) =~= rest);
        } else {
            let hi = b as int / 16;
            let lo = b as int % 16;
            assert(s[0] == 0x25);
            assert(s[1] == hex_digit(hi) as u8);
            assert(s[2] == hex_digit(lo) as u8);
            assert(hex_value(s[1]) == Some(hi));
            assert(hex_value(s[2]) == Some(lo));
            assert(escape_at(s));
            assert(s.skip(3) =~= rest);
        }
        assert(seq![b] + bytes.skip(1) =~= bytes);
    }
}

/// A locator comes back from its escaped form as it went in: what
/// [`image_path`] writes, [`receive`] reads as the same locator.
pub proof fn law_locator_round_trip(locator: Seq<char>)
    ensures
        unescaped(escaped(encode_utf8(locator))) == locator,
{
    let bytes = encode_utf8(locator);
    let text = escaped(bytes);
    lemma_escaped_ascii(bytes);
    vstd::utf8::is_ascii_chars_encode_utf8(text);
    assert(encode_utf8(text) =~= octets(text));
    lemma_unescape_escaped(bytes, octets(text));
    vstd::utf8::encode_utf8_valid_utf8(locator);
    vstd::utf8::encode_utf8_decode_utf8(locator);
}

} // verus!
