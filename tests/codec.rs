use rss::codec::{decode, decode_payload, decode_sources, edit_sources, encode, locate, CodecError, Encoding};
use rss::numbers::{decimal_bytes, le_bytes_of, parse_u64, read_le_u32};

#[test]
fn raw_container_has_exact_bytes() {
    let c = encode(b"m", b"s", b"ab", Encoding::Raw, 7);
    assert_eq!(c, b"/*m*/\ns\n/*ab\x02\x00\x00\x00r:7*/".to_vec());
}

#[test]
fn text_container_has_exact_bytes() {
    let c = encode(b"m", b"s", &[1, 2, 3], Encoding::Text, 42);
    assert_eq!(c, b"/*m*/\ns\n/*AQID:4b:42*/".to_vec());
}

#[test]
fn round_trip_raw() {
    let payload: Vec<u8> = (0..=255u8).collect();
    let c = encode(b"[package]\nname = \"x\"\n", b"fn main() {}\n", &payload, Encoding::Raw, u64::MAX);
    let d = decode(&c).unwrap();
    assert_eq!(d.manifest, b"[package]\nname = \"x\"\n".to_vec());
    assert_eq!(d.source, b"fn main() {}\n".to_vec());
    assert_eq!(d.payload, payload);
    assert_eq!(d.encoding, Encoding::Raw);
    assert_eq!(d.fingerprint, u64::MAX);
}

#[test]
fn round_trip_text() {
    let payload = b"\x7fELF binary bytes \x00\xff:*/".to_vec();
    let c = encode(b"manifest", b"/* comment */ fn main() {}", &payload, Encoding::Text, 0);
    let d = decode(&c).unwrap();
    assert_eq!(d.manifest, b"manifest".to_vec());
    assert_eq!(d.source, b"/* comment */ fn main() {}".to_vec());
    assert_eq!(d.payload, payload);
    assert_eq!(d.encoding, Encoding::Text);
    assert_eq!(d.fingerprint, 0);
}

#[test]
fn round_trip_empty_segments() {
    for e in [Encoding::Raw, Encoding::Text] {
        let c = encode(b"", b"", b"", e, 5);
        let d = decode(&c).unwrap();
        assert!(d.manifest.is_empty() && d.source.is_empty() && d.payload.is_empty());
        assert_eq!(d.encoding, e);
        assert_eq!(d.fingerprint, 5);
    }
}

#[test]
fn split_entry_points_agree() {
    let c = encode(b"m", b"src", b"bin", Encoding::Raw, 99);
    assert_eq!(decode_sources(&c), Ok((b"m".to_vec(), b"src".to_vec())));
    assert_eq!(decode_payload(&c), Ok((b"bin".to_vec(), 99)));
}

#[test]
fn trailing_newlines_are_ignored() {
    let mut c = encode(b"m", b"s", b"ab", Encoding::Raw, 7);
    c.extend_from_slice(b"\n\n");
    assert_eq!(decode_payload(&c), Ok((b"ab".to_vec(), 7)));
}

#[test]
fn length_beyond_buffer_is_rejected() {
    // raw length field claims 200 bytes, only a few stand before it
    let c = b"/*m*/\ns\n/*ab\xc8\x00\x00\x00r:7*/".to_vec();
    assert_eq!(decode(&c).err(), Some(CodecError::Format));
    assert_eq!(decode_payload(&c), Err(CodecError::Format));
    // text length field too large
    let c = b"/*m*/\ns\n/*AQID:999b:42*/".to_vec();
    assert_eq!(decode(&c).err(), Some(CodecError::Format));
}

#[test]
fn every_truncation_of_the_trailer_is_rejected() {
    for e in [Encoding::Raw, Encoding::Text] {
        let c = encode(b"manifest", b"source", b"payload bytes", e, 1234567);
        for k in 0..c.len() {
            assert_eq!(decode(&c[..k]).err(), Some(CodecError::Format), "cut at {}", k);
        }
    }
}

#[test]
fn corrupt_field_separator_is_rejected() {
    for e in [Encoding::Raw, Encoding::Text] {
        let c = encode(b"m", b"s", b"xyz", e, 31337);
        let sep = c.len() - 2 - "31337".len() - 1;
        assert_eq!(c[sep], b':');
        for b in [b'0', b'9', b'x', b';', 0u8, 255u8] {
            let mut bad = c.clone();
            bad[sep] = b;
            assert_eq!(decode(&bad).err(), Some(CodecError::Format));
        }
    }
}

#[test]
fn bad_base64_is_an_encoding_error() {
    let c = b"/*m*/\ns\n/*!!!!:4b:42*/".to_vec();
    assert_eq!(decode(&c).err(), Some(CodecError::Encoding));
    assert_eq!(decode_payload(&c), Err(CodecError::Encoding));
    // the sources do not need the payload decoded
    assert_eq!(decode_sources(&c), Ok((b"m".to_vec(), b"s".to_vec())));
}

#[test]
fn unknown_marker_reads_as_raw() {
    let c = b"/*m*/\ns\n/*ab\x02\x00\x00\x00z:7*/".to_vec();
    let d = decode(&c).unwrap();
    assert_eq!(d.encoding, Encoding::Raw);
    assert_eq!(d.payload, b"ab".to_vec());
}

#[test]
fn manifest_may_not_hold_the_close_delimiter() {
    let c = encode(b"a*/b", b"s", b"p", Encoding::Raw, 1);
    assert_eq!(decode(&c).err(), Some(CodecError::Format));
    let c = encode(b"a*/\nb", b"s", b"p", Encoding::Raw, 1);
    assert_eq!(decode_sources(&c), Ok((b"a".to_vec(), b"b*/\ns".to_vec())));
}

#[test]
fn manifest_starting_with_slash_round_trips() {
    let c = encode(b"/x", b"s", b"", Encoding::Raw, 7);
    assert_eq!(c, b"/*/x*/\ns\n/*\x00\x00\x00\x00r:7*/".to_vec());
    assert_eq!(edit_sources(&c, b"tool"), Ok((b"/x".to_vec(), b"s".to_vec())));
    for e in [Encoding::Raw, Encoding::Text] {
        let c = encode(b"/", b"/*s*/", b"bin", e, 9);
        let d = decode(&c).unwrap();
        assert_eq!(d.manifest, b"/".to_vec());
        assert_eq!(d.source, b"/*s*/".to_vec());
        assert_eq!(d.payload, b"bin".to_vec());
        assert_eq!(d.fingerprint, 9);
    }
}

#[test]
fn malformed_inputs_are_rejected() {
    for c in [&b""[..], b"*/", b"/", b":1*/", b"r:1*/", b"/*m*/\ns\n/*r:x*/", b"/*m*/\ns\n/*\x00\x00\x00\x00r:*/"] {
        assert_eq!(decode(c).err(), Some(CodecError::Format));
    }
    assert!(locate(b"/*m*/\ns\n/*\x00\x00\x00\x00r:1*/").is_some());
    assert_eq!(decode_payload(b"/*m*/\ns\n/*\x00\x00\x00\x00r:18446744073709551616*/"), Err(CodecError::Format));
}

#[test]
fn empty_container_gives_defaults() {
    let (m, s) = edit_sources(b"", b"tool").unwrap();
    let m = String::from_utf8(m).unwrap();
    assert!(m.contains("name = \"tool\""));
    assert!(m.starts_with("[package]\n"));
    assert!(String::from_utf8(s).unwrap().contains("fn main()"));
}

#[test]
fn non_empty_container_gives_its_sources() {
    let c = encode(b"mm", b"ss", b"pp", Encoding::Text, 3);
    assert_eq!(edit_sources(&c, b"tool"), Ok((b"mm".to_vec(), b"ss".to_vec())));
    assert_eq!(edit_sources(b"junk", b"tool"), Err(CodecError::Format));
}

#[test]
fn decimal_and_parse() {
    assert_eq!(decimal_bytes(0), b"0".to_vec());
    assert_eq!(decimal_bytes(1234), b"1234".to_vec());
    assert_eq!(decimal_bytes(u64::MAX), b"18446744073709551615".to_vec());
    assert_eq!(parse_u64(b"18446744073709551615"), Some(u64::MAX));
    assert_eq!(parse_u64(b"18446744073709551616"), None);
    assert_eq!(parse_u64(b"007"), Some(7));
    assert_eq!(parse_u64(b""), None);
    assert_eq!(parse_u64(b"+7"), None);
    assert_eq!(parse_u64(b"1a"), None);
}

#[test]
fn little_endian_fields() {
    assert_eq!(le_bytes_of(0x01020304), vec![4, 3, 2, 1]);
    assert_eq!(read_le_u32(&[4, 3, 2, 1]), 0x01020304);
    assert_eq!(read_le_u32(&le_bytes_of(u32::MAX)), u32::MAX);
}
