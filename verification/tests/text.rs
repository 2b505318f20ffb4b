use goose_ffi2::text::{c_str_to_string, c_string_bytes, c_string_prefix, push_decimal};

#[test]
fn test_string_conversion() {
    let test_str = "Hello, World!";
    let bytes = c_string_bytes(test_str).unwrap();
    let converted = c_str_to_string(&Some(bytes)).unwrap();
    assert_eq!(converted, test_str);
}

#[test]
fn null_pointer_is_an_error() {
    assert_eq!(c_str_to_string(&None), Err("Null pointer provided".to_string()));
}

#[test]
fn invalid_utf8_is_an_error() {
    let r = c_str_to_string(&Some(vec![0x61, 0xff, 0x62]));
    assert_eq!(
        r,
        Err("Invalid UTF-8 string: invalid utf-8 sequence of 1 bytes from index 1".to_string())
    );
}

#[test]
fn multibyte_text_reads_back() {
    let s = "héllo, wörld ✓";
    let bytes = c_string_bytes(s).unwrap();
    assert_eq!(bytes, s.as_bytes().to_vec());
    assert_eq!(c_str_to_string(&Some(bytes)), Ok(s.to_string()));
}

#[test]
fn interior_nul_cannot_become_a_c_string() {
    assert_eq!(c_string_bytes("a\0b"), None);
    assert_eq!(c_string_bytes("\0"), None);
    assert_eq!(c_string_bytes(""), Some(vec![]));
}

#[test]
fn decimal_numbers() {
    for (n, text) in [(0usize, "0"), (7, "7"), (10, "10"), (42, "42"), (1000, "1000"), (98765, "98765")] {
        let mut s = String::from("#");
        push_decimal(&mut s, n);
        assert_eq!(s, format!("#{}", text));
    }
}

#[test]
fn c_text_stops_at_the_first_nul() {
    assert_eq!(c_string_prefix("abc"), b"abc".to_vec());
    assert_eq!(c_string_prefix("ab\0cd\0e"), b"ab".to_vec());
    assert_eq!(c_string_prefix("\0x"), Vec::<u8>::new());
    assert_eq!(c_string_prefix("é\0"), "é".as_bytes().to_vec());
}
