//! How a body is shown in the record: as text where it is text, as base64 where it is not.
use vstd::prelude::*;
use vstd::string::*;

use crate::flow;
use crate::flow::{GrpcBody, GrpcMessage, GrpcMessageView};
use crate::proxy::content_encoding;
use crate::text;

verus! {

/// Some bytes as `data_encoding::BASE64` writes them.
pub uninterp spec fn base64(bytes: Seq<u8>) -> Seq<char>;

/// The bytes a text stands for in `data_encoding::BASE64`.
pub uninterp spec fn unbase64(s: Seq<char>) -> Option<Seq<u8>>;

/// `data_encoding::BASE64.encode`. What it writes, `decode` reads back.
#[verifier::external_body]
pub(crate) fn to_base64(bytes: &[u8]) -> (r: String)
    ensures
        r@ == base64(bytes@),
        unbase64(r@) == Some(bytes@),
{
    data_encoding::BASE64.encode(bytes)
}

/// `data_encoding::BASE64.decode` on the UTF-8 bytes of a text.
#[verifier::external_body]
pub(crate) fn from_base64(s: &str) -> (r: Option<Vec<u8>>)
    ensures
        match r {
            Some(v) => unbase64(s@) == Some(v@),
            None => unbase64(s@) is None,
        },
{
    data_encoding::BASE64.decode(s.as_bytes()).ok()
}

/// A text with its letters made small as Unicode has it.
pub uninterp spec fn unicode_lower(s: Seq<char>) -> Seq<char>;

/// `str::to_lowercase`.
#[verifier::external_body]
pub(crate) fn to_lowercase(s: &str) -> (r: String)
    ensures
        r@ == unicode_lower(s@),
{
    s.to_lowercase()
}

/// `std::str::from_utf8` gives the text that valid UTF-8 encodes and nothing for other bytes.
#[verifier::external_body]
pub(crate) fn utf8_text(bytes: &[u8]) -> (r: Option<String>)
    ensures
        match r {
            Some(s) => vstd::utf8::valid_utf8(bytes@) && s@ == vstd::utf8::decode_utf8(bytes@),
            None => !vstd::utf8::valid_utf8(bytes@),
        },
{
    std::str::from_utf8(bytes).ok().map(|s| s.to_string())
}

/// Whether a content type, in small letters, announces text.
pub open spec fn announces_text(content_type: Seq<char>) -> bool {
    ||| text::has(content_type, "charset=utf-8"@)
    ||| text::has(content_type, "charset=us-ascii"@)
    ||| text::has(content_type, "text/"@)
    ||| text::has(content_type, "application/json"@)
    ||| text::has(content_type, "application/xml"@)
    ||| text::has(content_type, "application/javascript"@)
}

/// Whether a content type, in small letters, announces bytes.
pub open spec fn announces_bytes(content_type: Seq<char>) -> bool {
    ||| text::starts(content_type, "image/"@)
    ||| text::starts(content_type, "audio/"@)
    ||| text::starts(content_type, "video/"@)
    ||| text::has(content_type, "application/octet-stream"@)
    ||| text::has(content_type, "application/pdf"@)
    ||| text::has(content_type, "application/zip"@)
}

/// The encoding and the content a body is shown with under a content type in small letters:
/// text where it is UTF-8 and nothing says it is bytes, base64 otherwise.
pub open spec fn shown_as(bytes: Seq<u8>, content_type: Seq<char>) -> (Seq<char>, Seq<char>) {
    if vstd::utf8::valid_utf8(bytes) && (announces_text(content_type) || !announces_bytes(content_type)) {
        ("utf-8"@, vstd::utf8::decode_utf8(bytes))
    } else {
        ("base64"@, base64(bytes))
    }
}

/// The content type that decides how a body is shown.
pub open spec fn content_type_lower(headers: Seq<(Seq<char>, Seq<char>)>) -> Seq<char> {
    match content_encoding::first_field(headers, "content-type"@) {
        Some(v) => unicode_lower(v),
        None => Seq::empty(),
    }
}

/// How a body is shown under the headers it came with.
pub open spec fn shown(bytes: Seq<u8>, headers: Seq<(Seq<char>, Seq<char>)>) -> (Seq<char>, Seq<char>) {
    shown_as(bytes, content_type_lower(headers))
}

/// The bytes a recorded body stands for. Content marked base64 that cannot be decoded is sent as
/// it is written rather than dropped.
pub open spec fn recorded_bytes(encoding: Seq<char>, content: Seq<char>) -> Seq<u8> {
    if encoding == "base64"@ {
        match unbase64(content) {
            Some(bytes) => bytes,
            None => vstd::utf8::encode_utf8(content),
        }
    } else {
        vstd::utf8::encode_utf8(content)
    }
}

/// The bytes a recorded body stands for.
pub fn bytes_of_record(encoding: &str, content: &str) -> (r: Vec<u8>)
    ensures
        r@ == recorded_bytes(encoding@, content@),
        encoding@ != "base64"@ ==> r@ == vstd::utf8::encode_utf8(content@),
        encoding@ == "base64"@ ==> (unbase64(content@) matches Some(b) ==> r@ == b),
{
    if text::same_text(encoding, "base64") {
        match from_base64(content) {
            Some(bytes) => bytes,
            None => vstd::slice::slice_to_vec(content.as_bytes()),
        }
    } else {
        vstd::slice::slice_to_vec(content.as_bytes())
    }
}

proof fn lemma_text_is_not_base64()
    ensures
        "utf-8"@ != "base64"@,
{
    reveal_strlit("utf-8");
    reveal_strlit("base64");
    assert("utf-8"@.len() != "base64"@.len());
}

fn is_text_type(content_type: &str) -> (r: bool)
    ensures
        r == announces_text(content_type@),
{
    text::contains(content_type, "charset=utf-8") || text::contains(content_type, "charset=us-ascii")
        || text::contains(content_type, "text/") || text::contains(content_type, "application/json")
        || text::contains(content_type, "application/xml") || text::contains(content_type, "application/javascript")
}

fn is_byte_type(content_type: &str) -> (r: bool)
    ensures
        r == announces_bytes(content_type@),
{
    text::starts_with(content_type, "image/") || text::starts_with(content_type, "audio/") || text::starts_with(
        content_type,
        "video/",
    ) || text::contains(content_type, "application/octet-stream") || text::contains(content_type, "application/pdf")
        || text::contains(content_type, "application/zip")
}

/// The encoding and the content a body is shown with under a content type in small letters. The
/// bytes can be had back from what is shown.
pub fn process_body_as(bytes: &[u8], content_type: &str) -> (r: (String, String))
    ensures
        (r.0@, r.1@) == shown_as(bytes@, content_type@),
        recorded_bytes(r.0@, r.1@) == bytes@,
        r.0@ == "utf-8"@ ==> vstd::utf8::valid_utf8(bytes@) && r.1@ == vstd::utf8::decode_utf8(bytes@),
        r.0@ == "base64"@ ==> unbase64(r.1@) == Some(bytes@),
        r.0@ == "utf-8"@ || r.0@ == "base64"@,
        vstd::utf8::valid_utf8(bytes@) && !announces_bytes(content_type@) ==> r.0@ == "utf-8"@,
        !vstd::utf8::valid_utf8(bytes@) ==> r.0@ == "base64"@,
{
    proof {
        lemma_text_is_not_base64();
        if vstd::utf8::valid_utf8(bytes@) {
            vstd::utf8::decode_utf8_encode_utf8(bytes@);
        }
    }
    if is_text_type(content_type) || !is_byte_type(content_type) {
        match utf8_text(bytes) {
            Some(s) => (text::copy("utf-8"), s),
            None => (text::copy("base64"), to_base64(bytes)),
        }
    } else {
        (text::copy("base64"), to_base64(bytes))
    }
}

/// The encoding and the content a body is shown with under the headers it came with. The bytes can
/// be had back from what is shown.
pub fn process_body(bytes: &[u8], headers: &[(String, String)]) -> (r: (String, String))
    ensures
        (r.0@, r.1@) == shown(bytes@, flow::pairs(headers@)),
        recorded_bytes(r.0@, r.1@) == bytes@,
        r.0@ == "utf-8"@ ==> r.1@ == vstd::utf8::decode_utf8(bytes@),
        r.0@ == "base64"@ ==> unbase64(r.1@) == Some(bytes@),
        r.0@ == "utf-8"@ || r.0@ == "base64"@,
        !vstd::utf8::valid_utf8(bytes@) ==> r.0@ == "base64"@,
{
    let content_type = match content_encoding::find_field(headers, "content-type") {
        Some(v) => to_lowercase(v.as_str()),
        None => String::new(),
    };
    assert(content_type@ =~= content_type_lower(flow::pairs(headers@)));
    process_body_as(bytes, content_type.as_str())
}

/// The media type of a content type: what stands before its parameters.
pub open spec fn media_type(content_type: Seq<char>) -> Seq<char> {
    text::lower(text::trimmed(text::pieces(content_type, ';')[0]))
}

/// Whether a content type announces gRPC messages.
pub open spec fn announces_grpc(content_type: Seq<char>) -> bool {
    media_type(content_type) == "application/grpc"@ || text::starts(media_type(content_type), "application/grpc+"@)
}

/// Whether a content type announces gRPC messages.
pub fn is_grpc_content_type(content_type: &str) -> (r: bool)
    ensures
        r == announces_grpc(content_type@),
        r <==> media_type(content_type@) == "application/grpc"@ || text::starts(
            media_type(content_type@),
            "application/grpc+"@,
        ),
{
    let parts = text::split(content_type, ';');
    assert(text::texts(parts@)[0] == parts@[0]@);
    let trimmed = text::trim(parts[0].as_str());
    let media = text::to_ascii_lower(trimmed.as_str());
    text::same_text(media.as_str(), "application/grpc") || text::starts_with(media.as_str(), "application/grpc+")
}

/// The length the prefix of a gRPC message announces: four bytes, highest first.
pub open spec fn announced_length(b: Seq<u8>) -> int {
    b[1] as int * 0x100_0000 + b[2] as int * 0x1_0000 + b[3] as int * 0x100 + b[4] as int
}

/// What is shown of the payload of a message: its text, where it is not compressed and is text.
pub open spec fn payload_text(compressed: bool, payload: Seq<u8>) -> Option<Seq<char>> {
    if !compressed && vstd::utf8::valid_utf8(payload) {
        Some(vstd::utf8::decode_utf8(payload))
    } else {
        None
    }
}

/// The messages a body is made of: each a flag byte, a length and as many bytes. A body that ends
/// inside a message has none.
pub open spec fn messages_of(b: Seq<u8>) -> Option<Seq<GrpcMessageView>>
    decreases b.len(),
{
    if b.len() == 0 {
        Some(Seq::empty())
    } else if b.len() < 5 || b.len() - 5 < announced_length(b) {
        None
    } else {
        let n = announced_length(b);
        match messages_of(b.subrange(5 + n, b.len() as int)) {
            None => None,
            Some(rest) => Some(
                seq![
                    GrpcMessageView {
                        compressed: b[0] == 1,
                        length: n as u32,
                        text: payload_text(b[0] == 1, b.subrange(5, 5 + n)),
                    },
                ] + rest,
            ),
        }
    }
}

/// The messages a body is made of; none where it ends inside one.
pub fn parse_messages(bytes: &[u8]) -> (r: Option<GrpcBody>)
    ensures
        flow::grpc_opt(r) == messages_of(bytes@),
{
    let mut messages: Vec<GrpcMessage> = Vec::new();
    let mut at: usize = 0;
    let ghost all = messages_of(bytes@);
    let total: usize = bytes.len();
    assert(bytes@.subrange(0, bytes@.len() as int) =~= bytes@);
    proof {
        let none = Seq::<GrpcMessageView>::empty();
        assert forall|rest: Seq<GrpcMessageView>| none + rest == rest by {
            assert(none + rest =~= rest);
        }
    }
    while at < total
        invariant
            at <= total,
            total == bytes@.len(),
            all == messages_of(bytes@),
            match messages_of(bytes@.subrange(at as int, total as int)) {
                Some(rest) => all == Some(messages@.map_values(|m: GrpcMessage| m@) + rest),
                None => all is None,
            },
        decreases total - at,
    {
        let ghost b = bytes@.subrange(at as int, total as int);
        let ghost before = messages@.map_values(|m: GrpcMessage| m@);
        if total - at < 5 {
            return None;
        }
        let n: u32 = (bytes[at + 1] as u32) * 0x100_0000 + (bytes[at + 2] as u32) * 0x1_0000 + (bytes[at + 3] as u32)
            * 0x100 + (bytes[at + 4] as u32);
        assert(n == announced_length(b));
        if ((total - at - 5) as u64) < n as u64 {
            return None;
        }
        let from: usize = at + 5;
        let to: usize = from + n as usize;
        let payload = vstd::slice::slice_subrange(bytes, from, to);
        assert(payload@ =~= b.subrange(5, 5 + n));
        let compressed = bytes[at] == 1;
        let shown = if compressed {
            None
        } else {
            utf8_text(payload)
        };
        let message = GrpcMessage { compressed, length: n, text: shown };
        let ghost view = message@;
        messages.push(message);
        proof {
            let tail = b.subrange(5 + n, b.len() as int);
            assert(tail =~= bytes@.subrange(to as int, total as int));
            assert(messages@.map_values(|m: GrpcMessage| m@) =~= before.push(view));
            match messages_of(tail) {
                Some(rest) => {
                    assert(before + (seq![view] + rest) =~= before.push(view) + rest);
                },
                None => {},
            }
        }
        at = to;
    }
    assert(messages@.map_values(|m: GrpcMessage| m@) + Seq::<GrpcMessageView>::empty() =~= messages@.map_values(
        |m: GrpcMessage| m@,
    ));
    Some(GrpcBody { messages })
}

/// How a body is shown, with its gRPC messages where it has some. A body of messages is bytes
/// even where it could be read as text.
pub open spec fn framed(bytes: Seq<u8>, headers: Seq<(Seq<char>, Seq<char>)>) -> (
    Seq<char>,
    Seq<char>,
    Option<Seq<GrpcMessageView>>,
) {
    let content_type = match content_encoding::first_field(headers, "content-type"@) {
        Some(v) => v,
        None => Seq::empty(),
    };
    let grpc = if announces_grpc(content_type) {
        messages_of(bytes)
    } else {
        None
    };
    if grpc is Some {
        ("base64"@, base64(bytes), grpc)
    } else {
        (shown(bytes, headers).0, shown(bytes, headers).1, None)
    }
}

/// How a body is shown, with its gRPC messages where it has some.
pub fn process_body_with_framing(bytes: &[u8], headers: &[(String, String)]) -> (r: (String, String, Option<GrpcBody>))
    ensures
        (r.0@, r.1@, flow::grpc_opt(r.2)) == framed(bytes@, flow::pairs(headers@)),
        recorded_bytes(r.0@, r.1@) == bytes@,
        r.2 is Some ==> r.0@ == "base64"@ && unbase64(r.1@) == Some(bytes@) && messages_of(bytes@) == flow::grpc_opt(r.2),
        content_encoding::first_field(flow::pairs(headers@), "content-type"@) matches Some(t) ==> (announces_grpc(t)
            && messages_of(bytes@) is Some ==> r.2 is Some),
{
    let (encoding, content) = process_body(bytes, headers);
    let content_type = match content_encoding::find_field(headers, "content-type") {
        Some(v) => v,
        None => String::new(),
    };
    proof {
        assert(content_type@ =~= match content_encoding::first_field(flow::pairs(headers@), "content-type"@) {
            Some(v) => v,
            None => Seq::empty(),
        });
    }
    let grpc = if is_grpc_content_type(content_type.as_str()) {
        parse_messages(bytes)
    } else {
        None
    };
    if grpc.is_some() {
        return (text::copy("base64"), to_base64(bytes), grpc);
    }
    (encoding, content, None)
}

/// How many bytes some messages take, with their prefixes.
pub open spec fn framed_length(messages: Seq<GrpcMessageView>) -> nat
    decreases messages.len(),
{
    if messages.len() == 0 {
        0
    } else {
        framed_length(messages.drop_last()) + 5 + messages.last().length as nat
    }
}

proof fn lemma_framed_length_push_front(m: GrpcMessageView, rest: Seq<GrpcMessageView>)
    ensures
        framed_length(seq![m] + rest) == 5 + m.length as nat + framed_length(rest),
    decreases rest.len(),
{
    let all = seq![m] + rest;
    if rest.len() == 0 {
        assert(all =~= seq![m]);
        assert(all.drop_last() =~= Seq::<GrpcMessageView>::empty());
        assert(framed_length(all.drop_last()) == 0);
    } else {
        assert(all.drop_last() =~= seq![m] + rest.drop_last());
        assert(all.last() == rest.last());
        lemma_framed_length_push_front(m, rest.drop_last());
    }
}

/// A body that has messages is made of them alone: no byte is left over, so a truncated capture
/// is never taken for a shorter call.
pub proof fn law_messages_cover_the_body(b: Seq<u8>)
    ensures
        messages_of(b) matches Some(messages) ==> framed_length(messages) == b.len(),
    decreases b.len(),
{
    if b.len() >= 5 && announced_length(b) <= b.len() - 5 {
        let n = announced_length(b);
        let tail = b.subrange(5 + n, b.len() as int);
        law_messages_cover_the_body(tail);
        match messages_of(tail) {
            Some(rest) => {
                lemma_framed_length_push_front(messages_of(b)->0[0], rest);
            },
            None => {},
        }
    }
}

/// A body that is shown with messages is shown as bytes, never as text.
pub proof fn law_message_bodies_are_shown_as_bytes(bytes: Seq<u8>, headers: Seq<(Seq<char>, Seq<char>)>)
    ensures
        framed(bytes, headers).2 is Some ==> framed(bytes, headers).0 == "base64"@ && framed(bytes, headers).1 == base64(
            bytes,
        ),
{
}

/// A body that is shown as text is its text, and one that is not text is shown as bytes.
pub proof fn law_text_is_shown_as_text(bytes: Seq<u8>, content_type: Seq<char>)
    ensures
        shown_as(bytes, content_type).0 == "utf-8"@ ==> vstd::utf8::valid_utf8(bytes) && shown_as(
            bytes,
            content_type,
        ).1 == vstd::utf8::decode_utf8(bytes),
        shown_as(bytes, content_type).0 == "base64"@ ==> shown_as(bytes, content_type).1 == base64(bytes),
        vstd::utf8::valid_utf8(bytes) && !announces_bytes(content_type) ==> shown_as(bytes, content_type).0 == "utf-8"@,
        vstd::utf8::valid_utf8(bytes) && text::has(content_type, "application/json"@) ==> shown_as(
            bytes,
            content_type,
        ).0 == "utf-8"@,
        vstd::utf8::valid_utf8(bytes) && text::has(content_type, "text/"@) ==> shown_as(bytes, content_type).0
            == "utf-8"@,
        !vstd::utf8::valid_utf8(bytes) ==> shown_as(bytes, content_type).0 == "base64"@,
{
    lemma_text_is_not_base64();
}

/// A recorded text stands for its own bytes, and recorded base64 for the bytes it encodes.
pub proof fn law_records_stand_for_their_bytes(content: Seq<char>, encoding: Seq<char>)
    ensures
        encoding != "base64"@ ==> recorded_bytes(encoding, content) == vstd::utf8::encode_utf8(content),
        encoding == "base64"@ ==> (unbase64(content) matches Some(b) ==> recorded_bytes(encoding, content) == b),
        encoding == "base64"@ && unbase64(content) is None ==> recorded_bytes(encoding, content)
            == vstd::utf8::encode_utf8(content),
{
}

/// A body is read message by message: a flag byte, four bytes of length with the highest first, and
/// as many bytes of payload, of which text is shown that is not compressed.
pub proof fn law_messages_are_read_one_by_one(head: Seq<u8>, payload: Seq<u8>, rest: Seq<u8>)
    requires
        head.len() == 5,
        payload.len() == head[1] * 0x100_0000 + head[2] * 0x1_0000 + head[3] * 0x100 + head[4],
    ensures
        messages_of(rest) is None ==> messages_of(head + payload + rest) is None,
        messages_of(rest) matches Some(others) ==> (messages_of(head + payload + rest) matches Some(all) && all.len()
            == others.len() + 1 && all[0].compressed == (head[0] == 1) && all[0].length == payload.len() && all[0].text
            == (if head[0] != 1 && vstd::utf8::valid_utf8(payload) {
            Some(vstd::utf8::decode_utf8(payload))
        } else {
            None
        }) && all.subrange(1, all.len() as int) == others),
{
    let b = head + payload + rest;
    let n = announced_length(b);
    assert(b[0] == head[0] && b[1] == head[1] && b[2] == head[2] && b[3] == head[3] && b[4] == head[4]);
    assert(n == payload.len());
    assert(b.subrange(5, 5 + n) =~= payload);
    assert(b.subrange(5 + n, b.len() as int) =~= rest);
    if let Some(others) = messages_of(rest) {
        let all = messages_of(b)->0;
        assert(all.subrange(1, all.len() as int) =~= others);
    }
}

/// Pictures, sound, films and archives are shown as bytes, even where they happen to be UTF-8, unless
/// their type says that they are text as well; a body whose type says so is shown as text.
pub proof fn law_types_decide_how_bodies_are_shown(bytes: Seq<u8>, content_type: Seq<char>)
    requires
        vstd::utf8::valid_utf8(bytes),
    ensures
        text::has(content_type, "text/"@) || text::has(content_type, "application/json"@) || text::has(
            content_type,
            "application/xml"@,
        ) || text::has(content_type, "application/javascript"@) || text::has(content_type, "charset=utf-8"@)
            || text::has(content_type, "charset=us-ascii"@) ==> shown_as(bytes, content_type) == (
            "utf-8"@,
            vstd::utf8::decode_utf8(bytes),
        ),
        !announces_text(content_type) && (text::starts(content_type, "image/"@) || text::starts(content_type, "audio/"@)
            || text::starts(content_type, "video/"@) || text::has(content_type, "application/octet-stream"@)
            || text::has(content_type, "application/pdf"@) || text::has(content_type, "application/zip"@))
            ==> shown_as(bytes, content_type) == ("base64"@, base64(bytes)),
{
}

} // verus!
