use authen::url_encode;

#[test]
fn url_encode_keeps_unreserved_characters() {
    assert_eq!(url_encode("abcXYZ019-_.~"), "abcXYZ019-_.~");
}

#[test]
fn url_encode_escapes_reserved_bytes_in_upper_case_hex() {
    assert_eq!(url_encode("a b&c=d#e"), "a%20b%26c%3Dd%23e");
    assert_eq!(url_encode("/?+%"), "%2F%3F%2B%25");
}

#[test]
fn url_encode_escapes_each_utf8_byte() {
    assert_eq!(url_encode("é"), "%C3%A9");
    assert_eq!(url_encode("€1"), "%E2%82%AC1");
}

#[test]
fn url_encode_of_empty_is_empty() {
    assert_eq!(url_encode(""), "");
}

#[test]
fn url_encode_output_has_no_delimiters() {
    let encoded = url_encode("tok&en=x#y z");
    assert!(!encoded.contains('&'));
    assert!(!encoded.contains('='));
    assert!(!encoded.contains('#'));
    assert_eq!(encoded, "tok%26en%3Dx%23y%20z");
}

#[test]
fn url_encode_is_reversible() {
    fn decode(s: &str) -> Vec<u8> {
        let bytes = s.as_bytes();
        let mut out = Vec::new();
        let mut i = 0;
        while i < bytes.len() {
            if bytes[i] == b'%' {
                let hex = std::str::from_utf8(&bytes[i + 1..i + 3]).unwrap();
                out.push(u8::from_str_radix(hex, 16).unwrap());
                i += 3;
            } else {
                out.push(bytes[i]);
                i += 1;
            }
        }
        out
    }
    for value in ["plain", "with space", "ünïcödé & more", "%41"] {
        assert_eq!(decode(&url_encode(value)), value.as_bytes().to_vec());
    }
}
