use flate2::write::{DeflateEncoder, GzEncoder};
use flate2::Compression;
use relay_core::proxy::content_encoding::{
    content_encoding_of, decode_for_inspection, encode_after_rewrite, find_codec, is_supported, read_all, Codec,
    DecodedBody,
};
use std::io::{Read, Write};

fn gzip(body: &[u8]) -> Vec<u8> {
    let mut e = GzEncoder::new(Vec::new(), Compression::default());
    e.write_all(body).expect("write");
    e.finish().expect("finish")
}

fn deflate(body: &[u8]) -> Vec<u8> {
    let mut e = DeflateEncoder::new(Vec::new(), Compression::default());
    e.write_all(body).expect("write");
    e.finish().expect("finish")
}

/// A zstd frame with one raw block.
fn zstd_frame(plain: &[u8]) -> Vec<u8> {
    let n = plain.len() as u32;
    let block = (n << 3) | 1;
    let mut out = vec![0x28, 0xb5, 0x2f, 0xfd, 0x20, n as u8];
    out.extend_from_slice(&[block as u8, (block >> 8) as u8, (block >> 16) as u8]);
    out.extend_from_slice(plain);
    out
}

/// A brotli stream with one uncompressed meta-block.
fn brotli_stream(plain: &[u8]) -> Vec<u8> {
    let head = ((plain.len() as u32 - 1) << 4) | (1 << 20);
    let mut out = vec![head as u8, (head >> 8) as u8, (head >> 16) as u8];
    out.extend_from_slice(plain);
    out.push(0x03);
    out
}

#[test]
fn gzip_body_is_decoded_for_inspection() {
    let plain = b"{\"hello\":\"world\"}";
    let (decoded, state) = decode_for_inspection(&gzip(plain), Some("gzip"));

    assert_eq!(state, DecodedBody::Decoded);
    assert_eq!(decoded, plain, "a gzip body must be plaintext to a rule");
}

#[test]
fn deflate_body_is_decoded_for_inspection() {
    let plain = b"payload";
    let (decoded, state) = decode_for_inspection(&deflate(plain), Some("deflate"));

    assert_eq!(state, DecodedBody::Decoded);
    assert_eq!(decoded, plain);
}

#[test]
fn encoding_name_is_case_insensitive() {
    let (decoded, state) = decode_for_inspection(&gzip(b"x"), Some("GZip"));
    assert_eq!(state, DecodedBody::Decoded);
    assert_eq!(decoded, b"x");
}

#[test]
fn unencoded_body_is_left_alone() {
    let (decoded, state) = decode_for_inspection(b"plain", None);
    assert_eq!(state, DecodedBody::AsReceived);
    assert_eq!(decoded, b"plain");
}

#[test]
fn unknown_encoding_is_not_guessed_at() {
    let (decoded, state) = decode_for_inspection(b"\x21\x00mystery", Some("x-weird"));
    assert_eq!(state, DecodedBody::AsReceived);
    assert_eq!(decoded, b"\x21\x00mystery");
}

#[test]
fn malformed_encoding_falls_back_to_the_original_bytes() {
    let (decoded, state) = decode_for_inspection(b"not really gzip", Some("gzip"));
    assert_eq!(state, DecodedBody::AsReceived);
    assert_eq!(decoded, b"not really gzip");
}

#[test]
fn rewrite_is_re_encoded_with_a_matching_header() {
    let (encoded, encoding) = encode_after_rewrite(b"REWRITTEN", Some("gzip"));

    assert_eq!(encoding.as_deref(), Some("gzip"));
    let (round_tripped, state) = decode_for_inspection(&encoded, Some("gzip"));
    assert_eq!(state, DecodedBody::Decoded);
    assert_eq!(round_tripped, b"REWRITTEN", "a client must be able to decode what we sent");
}

#[test]
fn rewriting_an_unsupported_encoding_sends_plaintext_without_claiming_otherwise() {
    for encoding_name in ["x-weird", "gzip, br"] {
        let (encoded, encoding) = encode_after_rewrite(b"REWRITTEN", Some(encoding_name));

        assert_eq!(encoding, None, "must not claim {encoding_name} when it was not applied");
        assert_eq!(encoded, b"REWRITTEN");
    }
}

#[test]
fn rewriting_without_an_encoding_adds_none() {
    let (encoded, encoding) = encode_after_rewrite(b"REWRITTEN", None);
    assert_eq!(encoding, None);
    assert_eq!(encoded, b"REWRITTEN");
}

#[test]
fn brotli_fixture_decodes_then_round_trips() {
    let fixture = brotli_stream(b"brotli-encoded-payload-for-relaycore-tests");
    let (plain, state) = decode_for_inspection(&fixture, Some("br"));
    assert_eq!(state, DecodedBody::Decoded);
    assert_eq!(
        plain, b"brotli-encoded-payload-for-relaycore-tests",
        "a br body must be plaintext to a rule"
    );

    let (encoded, encoding) = encode_after_rewrite(b"REWRITTEN-BR", Some("br"));
    assert_eq!(encoding.as_deref(), Some("br"));
    let (back, state) = decode_for_inspection(&encoded, Some("br"));
    assert_eq!(state, DecodedBody::Decoded);
    assert_eq!(back, b"REWRITTEN-BR");
}

#[test]
fn zstd_fixture_decodes_then_round_trips() {
    let fixture = zstd_frame(b"zstd-encoded-payload-for-relaycore-tests");
    let (plain, state) = decode_for_inspection(&fixture, Some("zstd"));
    assert_eq!(state, DecodedBody::Decoded);
    assert_eq!(plain, b"zstd-encoded-payload-for-relaycore-tests");

    let (encoded, encoding) = encode_after_rewrite(b"REWRITTEN-ZSTD", Some("zstd"));
    assert_eq!(encoding.as_deref(), Some("zstd"));
    let (back, state) = decode_for_inspection(&encoded, Some("zstd"));
    assert_eq!(state, DecodedBody::Decoded);
    assert_eq!(back, b"REWRITTEN-ZSTD");
}

#[test]
fn malformed_brotli_and_zstd_are_passed_through_untouched() {
    for (bytes, encoding) in [(&b"not brotli at all"[..], "br"), (&b"not zstd at all"[..], "zstd")] {
        let (decoded, state) = decode_for_inspection(bytes, Some(encoding));
        assert_eq!(state, DecodedBody::AsReceived, "{encoding} should not be guessed at");
        assert_eq!(decoded, bytes);
    }
}

#[test]
fn codec_set_matches_mitmproxy_coverage() {
    for e in ["gzip", "x-gzip", "deflate", "br", "zstd"] {
        assert!(is_supported(e), "{e} should be supported");
    }
    for e in ["identity", "unknown-codec", "gzip, br"] {
        assert!(!is_supported(e), "{e} must not claim round-trip support");
    }
}

#[test]
fn supported_set_matches_what_can_be_round_tripped() {
    for e in ["gzip", "x-gzip", "deflate", "GZIP"] {
        assert!(is_supported(e), "{e} should be supported");
    }
    for e in ["identity", "unknown-codec", "gzip, br"] {
        assert!(!is_supported(e), "{e} should not claim round-trip support");
    }
}

#[test]
fn content_encoding_lookup_ignores_case() {
    let headers = vec![("Content-Encoding".to_string(), "gzip".to_string())];
    assert_eq!(content_encoding_of(&headers).as_deref(), Some("gzip"));
    assert_eq!(content_encoding_of(&[]), None);
}

#[test]
fn truncated_frames_are_handled_at_every_length() {
    let full = gzip(b"payload-that-compresses");

    for cut in 0..full.len() {
        let (decoded, state) = decode_for_inspection(&full[..cut], Some("gzip"));
        match state {
            DecodedBody::Decoded => assert_eq!(
                decoded, b"payload-that-compresses",
                "a truncated frame must not decode to something else"
            ),
            DecodedBody::AsReceived => {
                assert_eq!(decoded, &full[..cut], "an undecodable prefix must be returned unchanged")
            }
        }
    }
}

#[test]
fn wrong_magic_bytes_are_not_guessed_at() {
    let impostors: [&[u8]; 5] = [
        b"\x1f\x8b\x08\x00",
        b"\x28\xb5\x2f\xfd\x00",
        b"not compressed at all",
        b"\x00\x01\x02\x03\x04\x05",
        b"",
    ];

    for encoding in ["gzip", "deflate", "br", "zstd"] {
        for body in impostors {
            let (decoded, state) = decode_for_inspection(body, Some(encoding));
            assert_eq!(decoded, body, "{encoding} must return undecodable bytes unchanged");
            if body.is_empty() {
                continue;
            }
            assert_eq!(
                state,
                DecodedBody::AsReceived,
                "{encoding} must not claim to have decoded {body:?}"
            );
        }
    }
}

#[test]
fn stacked_encodings_are_left_alone() {
    let body = b"anything";
    let (decoded, state) = decode_for_inspection(body, Some("gzip, br"));
    assert_eq!(state, DecodedBody::AsReceived);
    assert_eq!(decoded, body);
}

#[test]
fn malformed_encoding_names_do_not_panic() {
    for encoding in [
        "",
        " ",
        ",",
        "gzip,",
        ",gzip",
        "GZIP",
        "gzip;q=1",
        "unknown-encoding-with-unicode-编码",
        "\u{0}",
    ] {
        let (decoded, _) = decode_for_inspection(b"body", Some(encoding));
        assert_eq!(decoded, b"body", "encoding {encoding:?} must not corrupt the body");
    }
}

#[test]
fn an_expansion_bomb_is_refused_rather_than_materialized() {
    let bomb_plain = vec![0u8; 64 * 1024 * 1024];
    let mut encoder = GzEncoder::new(Vec::new(), Compression::best());
    encoder.write_all(&bomb_plain).expect("write");
    let bomb = encoder.finish().expect("finish");

    assert!(
        bomb.len() < 1024 * 1024,
        "precondition: the bomb must be small relative to what it expands to"
    );

    let (decoded, state) = decode_for_inspection(&bomb, Some("gzip"));
    assert_eq!(
        state,
        DecodedBody::AsReceived,
        "an expansion past the cap must be refused, not decoded"
    );
    assert_eq!(decoded, bomb, "a refused bomb must be passed through unchanged");
}

#[test]
fn re_encoding_arbitrary_bytes_never_panics() {
    let inputs: [&[u8]; 4] = [b"", b"x", &[0u8; 1024], &[0xffu8; 300]];

    for encoding in ["gzip", "deflate", "br", "zstd", "x-unknown"] {
        for input in inputs {
            let (encoded, claimed) = encode_after_rewrite(input, Some(encoding));
            if let Some(claimed) = claimed {
                let (round_tripped, state) = decode_for_inspection(&encoded, Some(&claimed));
                assert_eq!(
                    state,
                    DecodedBody::Decoded,
                    "claimed {claimed} but produced undecodable bytes"
                );
                assert_eq!(round_tripped, input, "a claimed encoding must round-trip the input");
            } else {
                assert_eq!(encoded, input, "unclaimed output must be the input verbatim");
            }
        }
    }
}

#[test]
fn an_old_name_of_gzip_is_known() {
    let (_, encoding) = encode_after_rewrite(b"x", Some(" X-GZIP "));
    assert_eq!(encoding.as_deref(), Some("gzip"));
    assert!(matches!(find_codec(" X-GZIP "), Some(Codec::Gzip)));
    assert!(find_codec("identity").is_none());
}

#[test]
fn every_codec_reads_what_it_should() {
    assert_eq!(read_all(Codec::Gzip, &gzip(b"abc")).as_deref(), Some(&b"abc"[..]));
    assert_eq!(read_all(Codec::Deflate, &deflate(b"abc")).as_deref(), Some(&b"abc"[..]));
    assert_eq!(read_all(Codec::Brotli, &brotli_stream(b"abc")).as_deref(), Some(&b"abc"[..]));
    assert_eq!(read_all(Codec::Zstd, &zstd_frame(b"abc")).as_deref(), Some(&b"abc"[..]));
    assert_eq!(read_all(Codec::Zstd, b"abc"), None);
}

#[test]
fn encoded_bodies_are_not_the_plain_ones() {
    for encoding in ["gzip", "deflate", "br", "zstd"] {
        let (encoded, _) = encode_after_rewrite(b"plain text", Some(encoding));
        assert_ne!(encoded, b"plain text", "{encoding} must encode");
    }
}

#[test]
fn a_rewrite_past_the_decoding_limit_still_decodes_to_itself() {
    let body = vec![b'z'; 17 * 1024 * 1024];
    let (wire, encoding) = encode_after_rewrite(&body, Some("gzip"));
    assert_eq!(encoding.as_deref(), Some("gzip"));
    let mut out = Vec::new();
    flate2::read::GzDecoder::new(wire.as_slice()).read_to_end(&mut out).expect("gzip");
    assert!(out == body);
    assert_eq!(decode_for_inspection(&wire, Some("gzip")).1, DecodedBody::AsReceived);
}
