//! `Content-Encoding` of bodies that are inspected or rewritten.
//!
//! `gzip`, `deflate`, `br` and `zstd` are decoded for inspection and applied again to a rewritten
//! body. Any other encoding is neither guessed at nor claimed: the bytes pass through, and a
//! rewrite is sent as plaintext without the header, so header and body agree.
use std::io::{Read, Write};

use vstd::prelude::*;

use crate::flow;
use crate::text;

verus! {

/// What became of a body on its way to inspection.
#[derive(Clone, Copy, Debug, PartialEq, Eq, Structural)]
pub enum DecodedBody {
    /// Not encoded, or not decodable here: the bytes are as received.
    AsReceived,
    /// Plaintext; it has to be encoded again before it is sent back.
    Decoded,
}

/// An encoding that can be removed and applied.
#[derive(Clone, Copy, Debug, PartialEq, Eq, Structural)]
pub enum Codec {
    Gzip,
    Deflate,
    Brotli,
    Zstd,
}

/// The largest body that is decoded. A small payload can expand enormously, so what goes past
/// this is treated as undecodable.
pub const MAX_DECODED_BYTES: usize = 16777216;

/// The level zstd compresses a rewritten body with.
pub const ZSTD_LEVEL: i32 = 3;

/// What `GzDecoder` reads from a gzip body, where it can be read to its end.
pub uninterp spec fn gunzip(body: Seq<u8>) -> Option<Seq<u8>>;

/// What `GzEncoder` writes for a body.
pub uninterp spec fn gzip(body: Seq<u8>) -> Seq<u8>;

/// What `DeflateDecoder` reads from a deflate body, where it can be read to its end.
pub uninterp spec fn inflate(body: Seq<u8>) -> Option<Seq<u8>>;

/// What `DeflateEncoder` writes for a body.
pub uninterp spec fn deflate(body: Seq<u8>) -> Seq<u8>;

/// What brotli's `Decompressor` reads from a body, where it can be read to its end.
pub uninterp spec fn unbrotli(body: Seq<u8>) -> Option<Seq<u8>>;

/// What `BrotliCompress` writes for a body.
pub uninterp spec fn brotli_of(body: Seq<u8>) -> Seq<u8>;

/// What zstd's `Decoder` reads from a body, where it can be read to its end.
pub uninterp spec fn unzstd(body: Seq<u8>) -> Option<Seq<u8>>;

/// What `zstd::stream::encode_all` writes for a body at a level.
pub uninterp spec fn zstd_of(body: Seq<u8>, level: i32) -> Option<Seq<u8>>;

/// Reading `flate2::read::GzDecoder` to its end, stopped after `most` bytes. A result shorter than
/// that is the whole plaintext, and a whole plaintext shorter than that is the result.
#[verifier::external_body]
fn read_gzip(body: &[u8], most: u64) -> (r: Option<Vec<u8>>)
    ensures
        match r {
            Some(v) => v@.len() < most ==> gunzip(body@) == Some(v@),
            None => true,
        },
        match gunzip(body@) {
            Some(d) => d.len() < most ==> match r {
                Some(v) => v@ == d,
                None => false,
            },
            None => true,
        },
{
    let mut out = Vec::new();
    flate2::read::GzDecoder::new(body).take(most).read_to_end(&mut out).ok().map(|_| out)
}

/// Reading `flate2::read::DeflateDecoder` to its end, stopped after `most` bytes. A result shorter
/// than that is the whole plaintext, and a whole plaintext shorter than that is the result.
#[verifier::external_body]
fn read_deflate(body: &[u8], most: u64) -> (r: Option<Vec<u8>>)
    ensures
        match r {
            Some(v) => v@.len() < most ==> inflate(body@) == Some(v@),
            None => true,
        },
        match inflate(body@) {
            Some(d) => d.len() < most ==> match r {
                Some(v) => v@ == d,
                None => false,
            },
            None => true,
        },
{
    let mut out = Vec::new();
    flate2::read::DeflateDecoder::new(body).take(most).read_to_end(&mut out).ok().map(|_| out)
}

/// Reading `brotli::Decompressor` to its end, stopped after `most` bytes. A result shorter than
/// that is the whole plaintext, and a whole plaintext shorter than that is the result.
#[verifier::external_body]
fn read_brotli(body: &[u8], most: u64) -> (r: Option<Vec<u8>>)
    ensures
        match r {
            Some(v) => v@.len() < most ==> unbrotli(body@) == Some(v@),
            None => true,
        },
        match unbrotli(body@) {
            Some(d) => d.len() < most ==> match r {
                Some(v) => v@ == d,
                None => false,
            },
            None => true,
        },
{
    let mut out = Vec::new();
    brotli::Decompressor::new(body, 4096).take(most).read_to_end(&mut out).ok().map(|_| out)
}

/// Reading `zstd::stream::read::Decoder` to its end, stopped after `most` bytes. A result shorter
/// than that is the whole plaintext, and a whole plaintext shorter than that is the result.
#[verifier::external_body]
fn read_zstd(body: &[u8], most: u64) -> (r: Option<Vec<u8>>)
    ensures
        match r {
            Some(v) => v@.len() < most ==> unzstd(body@) == Some(v@),
            None => true,
        },
        match unzstd(body@) {
            Some(d) => d.len() < most ==> match r {
                Some(v) => v@ == d,
                None => false,
            },
            None => true,
        },
{
    let mut out = Vec::new();
    zstd::stream::read::Decoder::new(body).ok()?.take(most).read_to_end(&mut out).ok().map(|_| out)
}

/// `flate2::write::GzEncoder` at its default level. What it writes, `GzDecoder` reads back. Its
/// errors are those of the writer behind it, and a vector has none.
#[verifier::external_body]
fn write_gzip(body: &[u8]) -> (r: Option<Vec<u8>>)
    ensures
        r is Some,
        r matches Some(v) ==> v@ == gzip(body@) && gunzip(v@) == Some(body@),
{
    let mut encoder = flate2::write::GzEncoder::new(Vec::new(), flate2::Compression::default());
    encoder.write_all(body).and_then(|_| encoder.finish()).ok()
}

/// `flate2::write::DeflateEncoder` at its default level. What it writes, `DeflateDecoder` reads
/// back. Its errors are those of the writer behind it, and a vector has none.
#[verifier::external_body]
fn write_deflate(body: &[u8]) -> (r: Option<Vec<u8>>)
    ensures
        r is Some,
        r matches Some(v) ==> v@ == deflate(body@) && inflate(v@) == Some(body@),
{
    let mut encoder = flate2::write::DeflateEncoder::new(Vec::new(), flate2::Compression::default());
    encoder.write_all(body).and_then(|_| encoder.finish()).ok()
}

/// `brotli::BrotliCompress` with its default parameters. What it writes, `Decompressor` reads back.
/// Its errors are those of the reader and the writer, and a cursor and a vector have none.
#[verifier::external_body]
fn write_brotli(body: &[u8]) -> (r: Option<Vec<u8>>)
    ensures
        r is Some,
        r matches Some(v) ==> v@ == brotli_of(body@) && unbrotli(v@) == Some(body@),
{
    let mut out = Vec::new();
    let params = brotli::enc::BrotliEncoderParams::default();
    brotli::BrotliCompress(&mut std::io::Cursor::new(body), &mut out, &params).ok().map(|_| out)
}

/// `zstd::stream::encode_all`. What it writes, zstd's `Decoder` reads back. That it always succeeds
/// is not stated: the errors of the zstd library are not only those of reader and writer.
#[verifier::external_body]
fn write_zstd(body: &[u8], level: i32) -> (r: Option<Vec<u8>>)
    ensures
        match r {
            Some(v) => zstd_of(body@, level) == Some(v@) && unzstd(v@) == Some(body@),
            None => zstd_of(body@, level) is None,
        },
{
    zstd::stream::encode_all(body, level).ok()
}

/// The codec an encoding name stands for: a single name, whatever its case and the white space
/// around it.
pub open spec fn codec_of(encoding: Seq<char>) -> Option<Codec> {
    let name = text::lower(text::trimmed(encoding));
    if name == "gzip"@ || name == "x-gzip"@ {
        Some(Codec::Gzip)
    } else if name == "deflate"@ {
        Some(Codec::Deflate)
    } else if name == "br"@ {
        Some(Codec::Brotli)
    } else if name == "zstd"@ {
        Some(Codec::Zstd)
    } else {
        None
    }
}

/// The name a codec is announced by.
pub open spec fn codec_name(codec: Codec) -> Seq<char> {
    match codec {
        Codec::Gzip => "gzip"@,
        Codec::Deflate => "deflate"@,
        Codec::Brotli => "br"@,
        Codec::Zstd => "zstd"@,
    }
}

/// The plaintext of an encoded body, however long it is.
pub open spec fn plaintext(codec: Codec, body: Seq<u8>) -> Option<Seq<u8>> {
    match codec {
        Codec::Gzip => gunzip(body),
        Codec::Deflate => inflate(body),
        Codec::Brotli => unbrotli(body),
        Codec::Zstd => unzstd(body),
    }
}

/// The encoded form of a body; none where zstd fails, and there alone.
pub open spec fn encoded(codec: Codec, body: Seq<u8>) -> Option<Seq<u8>> {
    match codec {
        Codec::Gzip => Some(gzip(body)),
        Codec::Deflate => Some(deflate(body)),
        Codec::Brotli => Some(brotli_of(body)),
        Codec::Zstd => zstd_of(body, ZSTD_LEVEL),
    }
}

/// What inspection sees of a body that arrived with the given `Content-Encoding`.
pub open spec fn inspected(body: Seq<u8>, content_encoding: Option<Seq<char>>) -> (Seq<u8>, DecodedBody) {
    match content_encoding {
        None => (body, DecodedBody::AsReceived),
        Some(name) => match codec_of(name) {
            None => (body, DecodedBody::AsReceived),
            Some(codec) => match plaintext(codec, body) {
                Some(plain) => if plain.len() <= MAX_DECODED_BYTES {
                    (plain, DecodedBody::Decoded)
                } else {
                    (body, DecodedBody::AsReceived)
                },
                None => (body, DecodedBody::AsReceived),
            },
        },
    }
}

/// What is sent for a rewritten body, and the encoding it is announced with.
pub open spec fn rewritten(body: Seq<u8>, content_encoding: Option<Seq<char>>) -> (Seq<u8>, Option<Seq<char>>) {
    match content_encoding {
        None => (body, None),
        Some(name) => match codec_of(name) {
            None => (body, None),
            Some(codec) => match encoded(codec, body) {
                Some(wire) => (wire, Some(codec_name(codec))),
                None => (body, None),
            },
        },
    }
}

/// The codec an encoding name stands for.
pub fn find_codec(encoding: &str) -> (r: Option<Codec>)
    ensures
        r == codec_of(encoding@),
        ({
            let name = text::lower(text::trimmed(encoding@));
            &&& name == "gzip"@ || name == "x-gzip"@ ==> r == Some(Codec::Gzip)
            &&& name == "deflate"@ ==> r == Some(Codec::Deflate)
            &&& name == "br"@ ==> r == Some(Codec::Brotli)
            &&& name == "zstd"@ ==> r == Some(Codec::Zstd)
            &&& name != "gzip"@ && name != "x-gzip"@ && name != "deflate"@ && name != "br"@ && name != "zstd"@ ==> r is None
        }),
{
    proof {
        lemma_codec_names_differ();
    }
    let trimmed = text::trim(encoding);
    let name = text::to_ascii_lower(trimmed.as_str());
    let name = name.as_str();
    if text::same_text(name, "gzip") || text::same_text(name, "x-gzip") {
        Some(Codec::Gzip)
    } else if text::same_text(name, "deflate") {
        Some(Codec::Deflate)
    } else if text::same_text(name, "br") {
        Some(Codec::Brotli)
    } else if text::same_text(name, "zstd") {
        Some(Codec::Zstd)
    } else {
        None
    }
}

/// Decode a body, giving up on one that is malformed or expands past the limit.
pub fn read_all(codec: Codec, body: &[u8]) -> (r: Option<Vec<u8>>)
    ensures
        match r {
            Some(v) => plaintext(codec, body@) == Some(v@) && v@.len() <= MAX_DECODED_BYTES,
            None => match plaintext(codec, body@) {
                Some(plain) => plain.len() > MAX_DECODED_BYTES,
                None => true,
            },
        },
        r matches Some(v) ==> {
            &&& codec is Gzip ==> gunzip(body@) == Some(v@)
            &&& codec is Deflate ==> inflate(body@) == Some(v@)
            &&& codec is Brotli ==> unbrotli(body@) == Some(v@)
            &&& codec is Zstd ==> unzstd(body@) == Some(v@)
            &&& v@.len() <= 16777216
        },
{
    let most: u64 = 16777217;
    let read = match codec {
        Codec::Gzip => read_gzip(body, most),
        Codec::Deflate => read_deflate(body, most),
        Codec::Brotli => read_brotli(body, most),
        Codec::Zstd => read_zstd(body, most),
    };
    match read {
        Some(out) => if out.len() <= MAX_DECODED_BYTES {
            Some(out)
        } else {
            None
        },
        None => None,
    }
}

/// Decode a body according to its `Content-Encoding`.
///
/// An encoding that is unknown, or that the bytes are not in, leaves the body as it was received:
/// guessing would corrupt traffic.
pub fn decode_for_inspection(body: &[u8], content_encoding: Option<&str>) -> (r: (Vec<u8>, DecodedBody))
    ensures
        (r.0@, r.1) == inspected(body@, text::str_opt(content_encoding)),
        content_encoding is None ==> r.0@ == body@ && r.1 is AsReceived,
        r.1 is AsReceived ==> r.0@ == body@,
        content_encoding matches Some(e) ==> ({
            let name = text::lower(text::trimmed(e@));
            &&& name == "gzip"@ ==> (gunzip(body@) matches Some(p) ==> (p.len() <= 16777216 ==> r.0@ == p
                && r.1 is Decoded))
            &&& name == "deflate"@ ==> (inflate(body@) matches Some(p) ==> (p.len() <= 16777216 ==> r.0@ == p
                && r.1 is Decoded))
            &&& name == "br"@ ==> (unbrotli(body@) matches Some(p) ==> (p.len() <= 16777216 ==> r.0@ == p
                && r.1 is Decoded))
            &&& name == "zstd"@ ==> (unzstd(body@) matches Some(p) ==> (p.len() <= 16777216 ==> r.0@ == p
                && r.1 is Decoded))
            &&& name != "gzip"@ && name != "x-gzip"@ && name != "deflate"@ && name != "br"@ && name != "zstd"@
                ==> r.1 is AsReceived
        }),
        r.1 is Decoded ==> r.0@.len() <= 16777216,
{
    proof {
        lemma_codec_names_differ();
    }
    let decoded = match content_encoding {
        None => None,
        Some(encoding) => match find_codec(encoding) {
            None => None,
            Some(codec) => read_all(codec, body),
        },
    };
    match decoded {
        Some(plain) => (plain, DecodedBody::Decoded),
        None => (vstd::slice::slice_to_vec(body), DecodedBody::AsReceived),
    }
}

fn apply(codec: Codec, body: &[u8]) -> (r: Option<Vec<u8>>)
    ensures
        match r {
            Some(v) => encoded(codec, body@) == Some(v@) && plaintext(codec, v@) == Some(body@),
            None => encoded(codec, body@) is None,
        },
{
    match codec {
        Codec::Gzip => write_gzip(body),
        Codec::Deflate => write_deflate(body),
        Codec::Brotli => write_brotli(body),
        Codec::Zstd => write_zstd(body, ZSTD_LEVEL),
    }
}

fn name_of(codec: Codec) -> (r: String)
    ensures
        r@ == codec_name(codec),
{
    match codec {
        Codec::Gzip => text::copy("gzip"),
        Codec::Deflate => text::copy("deflate"),
        Codec::Brotli => text::copy("br"),
        Codec::Zstd => text::copy("zstd"),
    }
}

proof fn lemma_names_are_plain()
    ensures
        forall|codec: Codec| codec_of(#[trigger] codec_name(codec)) == Some(codec),
{
    reveal_strlit("gzip");
    reveal_strlit("x-gzip");
    reveal_strlit("deflate");
    reveal_strlit("br");
    reveal_strlit("zstd");
    assert forall|codec: Codec| codec_of(#[trigger] codec_name(codec)) == Some(codec) by {
        let name = codec_name(codec);
        assert(!text::is_white(name[0]));
        assert(!text::is_white(name.last()));
        assert(text::trim_start(name) == name);
        assert(text::trim_end(name) == name);
        assert(text::lower(name) =~= name);
        assert("gzip"@.len() == 4 && "deflate"@.len() == 7 && "br"@.len() == 2 && "zstd"@.len() == 4 && "x-gzip"@.len()
            == 6);
        assert("gzip"@[0] != "zstd"@[0]);
    }
}

/// Encode a rewritten body again.
///
/// What is announced has been applied: whoever removes the announced encoding gets the rewritten
/// body back, and inspection does within the size that is decoded at all. What is not announced is
/// the rewritten body itself.
pub fn encode_after_rewrite(body: &[u8], content_encoding: Option<&str>) -> (r: (Vec<u8>, Option<String>))
    ensures
        (r.0@, text::text_opt(r.1)) == rewritten(body@, text::str_opt(content_encoding)),
        r.1 is Some && body@.len() <= MAX_DECODED_BYTES ==> inspected(r.0@, text::text_opt(r.1)) == (
            body@,
            DecodedBody::Decoded,
        ),
        r.1 matches Some(name) ==> codec_of(name@) matches Some(codec) && plaintext(codec, r.0@) == Some(body@),
        r.1 is None ==> r.0@ == body@,
        content_encoding is None ==> r.1 is None,
        r.1 matches Some(name) ==> {
            &&& name@ == "gzip"@ ==> gunzip(r.0@) == Some(body@)
            &&& name@ == "deflate"@ ==> inflate(r.0@) == Some(body@)
            &&& name@ == "br"@ ==> unbrotli(r.0@) == Some(body@)
            &&& name@ == "zstd"@ ==> unzstd(r.0@) == Some(body@)
            &&& name@ == "gzip"@ || name@ == "deflate"@ || name@ == "br"@ || name@ == "zstd"@
        },
        content_encoding matches Some(e) ==> ({
            let asked = text::lower(text::trimmed(e@));
            &&& asked == "gzip"@ || asked == "x-gzip"@ ==> (r.1 matches Some(name) && name@ == "gzip"@)
            &&& asked == "deflate"@ ==> (r.1 matches Some(name) && name@ == "deflate"@)
            &&& asked == "br"@ ==> (r.1 matches Some(name) && name@ == "br"@)
            &&& asked == "zstd"@ ==> (r.1 matches Some(name) ==> name@ == "zstd"@)
            &&& asked != "gzip"@ && asked != "x-gzip"@ && asked != "deflate"@ && asked != "br"@ && asked != "zstd"@
                ==> r.1 is None
        }),
{
    proof {
        lemma_codec_names_differ();
        lemma_names_are_plain();
    }
    match content_encoding {
        None => (vstd::slice::slice_to_vec(body), None),
        Some(encoding) => match find_codec(encoding) {
            None => (vstd::slice::slice_to_vec(body), None),
            Some(codec) => match apply(codec, body) {
                Some(wire) => (wire, Some(name_of(codec))),
                None => (vstd::slice::slice_to_vec(body), None),
            },
        },
    }
}

/// The value of the first field of a name, whatever the case of the name's letters.
pub open spec fn first_field(headers: Seq<(Seq<char>, Seq<char>)>, name: Seq<char>) -> Option<Seq<char>>
    decreases headers.len(),
{
    if headers.len() == 0 {
        None
    } else if text::lower(headers[0].0) == text::lower(name) {
        Some(headers[0].1)
    } else {
        first_field(headers.subrange(1, headers.len() as int), name)
    }
}

/// The value of the first field of a name, whatever the case of the name's letters.
pub fn find_field(headers: &[(String, String)], name: &str) -> (r: Option<String>)
    ensures
        text::text_opt(r) == first_field(flow::pairs(headers@), name@),
{
    let ghost all = flow::pairs(headers@);
    let mut i: usize = 0;
    assert(all.subrange(0, all.len() as int) =~= all);
    while i < headers.len()
        invariant
            i <= headers@.len(),
            all == flow::pairs(headers@),
            first_field(all.subrange(i as int, all.len() as int), name@) == first_field(all, name@),
        decreases headers.len() - i,
    {
        let ghost rest = all.subrange(i as int, all.len() as int);
        assert(rest[0] == (headers@[i as int].0@, headers@[i as int].1@));
        assert(rest.subrange(1, rest.len() as int) =~= all.subrange(i + 1, all.len() as int));
        if text::same_ignoring_case(headers[i].0.as_str(), name) {
            return Some(text::copy(headers[i].1.as_str()));
        }
        i = i + 1;
    }
    assert(all.subrange(i as int, all.len() as int).len() == 0);
    None
}

/// The `Content-Encoding` of a header list.
pub fn content_encoding_of(headers: &[(String, String)]) -> (r: Option<String>)
    ensures
        text::text_opt(r) == first_field(flow::pairs(headers@), "content-encoding"@),
        r is None ==> forall|i: int|
            0 <= i < headers@.len() ==> text::lower((#[trigger] headers@[i]).0@) != text::lower("content-encoding"@),
{
    proof {
        law_only_missing_fields_are_not_found(flow::pairs(headers@), "content-encoding"@);
        assert forall|i: int| 0 <= i < headers@.len() && first_field(
            flow::pairs(headers@),
            "content-encoding"@,
        ) is None implies text::lower((#[trigger] headers@[i]).0@) != text::lower("content-encoding"@) by {
            assert(flow::pairs(headers@)[i].0 == headers@[i].0@);
        }
    }
    find_field(headers, "content-encoding")
}

/// Whether a `Content-Encoding` is one that can be removed and applied again.
pub fn is_supported(content_encoding: &str) -> (r: bool)
    ensures
        r == (codec_of(content_encoding@) is Some),
{
    find_codec(content_encoding).is_some()
}

/// A body is never changed by inspection alone: it is decoded under a supported encoding, or it
/// is what was received.
pub proof fn law_unsupported_bodies_pass_through(body: Seq<u8>, content_encoding: Option<Seq<char>>)
    ensures
        inspected(body, content_encoding).1 is AsReceived ==> inspected(body, content_encoding).0 == body,
        inspected(body, content_encoding).1 is Decoded ==> content_encoding is Some && codec_of(
            content_encoding->0,
        ) is Some && inspected(body, content_encoding).0.len() <= MAX_DECODED_BYTES,
{
}

/// Only a supported encoding is announced for a rewritten body, and a supported one always is, but
/// for zstd where its encoder fails.
pub proof fn law_supported_encodings_are_applied(body: Seq<u8>, content_encoding: Option<Seq<char>>)
    ensures
        rewritten(body, content_encoding).1 is Some ==> content_encoding is Some && codec_of(content_encoding->0) is Some,
        content_encoding matches Some(name) ==> (codec_of(name) matches Some(codec) ==> (codec != Codec::Zstd || zstd_of(
            body,
            ZSTD_LEVEL,
        ) is Some) ==> rewritten(body, content_encoding).1 == Some(codec_name(codec))),
{
}

proof fn lemma_codec_names_differ()
    ensures
        "gzip"@ != "zstd"@,
        "gzip"@.len() == 4,
        "x-gzip"@.len() == 6,
        "deflate"@.len() == 7,
        "br"@.len() == 2,
        "zstd"@.len() == 4,
{
    reveal_strlit("gzip");
    reveal_strlit("x-gzip");
    reveal_strlit("deflate");
    reveal_strlit("br");
    reveal_strlit("zstd");
    assert("gzip"@[0] != "zstd"@[0]);
}

/// The field that is found is the first of its name.
pub proof fn law_the_first_field_of_a_name_is_found(headers: Seq<(Seq<char>, Seq<char>)>, name: Seq<char>, i: int)
    requires
        0 <= i < headers.len(),
        text::lower(headers[i].0) == text::lower(name),
        forall|j: int| 0 <= j < i ==> text::lower((#[trigger] headers[j]).0) != text::lower(name),
    ensures
        first_field(headers, name) == Some(headers[i].1),
    decreases headers.len(),
{
    if i > 0 {
        let rest = headers.subrange(1, headers.len() as int);
        assert(text::lower(headers[0].0) != text::lower(name));
        assert forall|j: int| 0 <= j < i - 1 implies text::lower((#[trigger] rest[j]).0) != text::lower(name) by {
            assert(rest[j] == headers[j + 1]);
        }
        law_the_first_field_of_a_name_is_found(rest, name, i - 1);
    }
}

/// No field is found only where there is none of the name.
pub proof fn law_only_missing_fields_are_not_found(headers: Seq<(Seq<char>, Seq<char>)>, name: Seq<char>)
    ensures
        first_field(headers, name) is None ==> forall|i: int|
            0 <= i < headers.len() ==> text::lower((#[trigger] headers[i]).0) != text::lower(name),
    decreases headers.len(),
{
    if headers.len() > 0 && text::lower(headers[0].0) != text::lower(name) {
        let rest = headers.subrange(1, headers.len() as int);
        law_only_missing_fields_are_not_found(rest, name);
        if first_field(headers, name) is None {
            assert forall|i: int| 0 <= i < headers.len() implies text::lower((#[trigger] headers[i]).0) != text::lower(
                name,
            ) by {
                if i > 0 {
                    assert(rest[i - 1] == headers[i]);
                }
            }
        }
    }
}

/// Inspection sees the plaintext of a body in a supported encoding, as far as that is read at all,
/// and any other body as it was received.
pub proof fn law_inspection_sees_plaintext(body: Seq<u8>, encoding: Seq<char>)
    ensures
        ({
            let name = text::lower(text::trimmed(encoding));
            let seen = inspected(body, Some(encoding));
            &&& name == "gzip"@ || name == "x-gzip"@ ==> (gunzip(body) matches Some(p) ==> (p.len() <= 16777216 ==> seen == (
                p,
                DecodedBody::Decoded,
            )))
            &&& name == "deflate"@ ==> (inflate(body) matches Some(p) ==> (p.len() <= 16777216 ==> seen == (
                p,
                DecodedBody::Decoded,
            )))
            &&& name == "br"@ ==> (unbrotli(body) matches Some(p) ==> (p.len() <= 16777216 ==> seen == (
                p,
                DecodedBody::Decoded,
            )))
            &&& name == "zstd"@ ==> (unzstd(body) matches Some(p) ==> (p.len() <= 16777216 ==> seen == (
                p,
                DecodedBody::Decoded,
            )))
            &&& name != "gzip"@ && name != "x-gzip"@ && name != "deflate"@ && name != "br"@ && name != "zstd"@ ==> seen == (
                body,
                DecodedBody::AsReceived,
            )
            &&& seen.1 is AsReceived ==> seen.0 == body
        }),
{
    lemma_codec_names_differ();
}

} // verus!
