use quire::routes::percent_decode;
use quire::text::{clip, from_utf8_lossy, split_words, to_capital, to_lowercase, to_uppercase, trim};

#[test]
fn white_space_is_trimmed_and_nothing_else() {
    for c in (0..=0x10_ffff_u32).filter_map(char::from_u32) {
        let white = matches!(
            c as u32,
            0x9..=0xd | 0x20 | 0x85 | 0xa0 | 0x1680 | 0x2000..=0x200a | 0x2028 | 0x2029 | 0x202f | 0x205f | 0x3000
        );
        assert_eq!(trim(&c.to_string()).is_empty(), white, "{:x}", c as u32);
    }
    assert_eq!(trim("\u{a0} a b\t\n"), "a b");
    assert_eq!(split_words(" two\u{2003}words "), ["two", "words"]);
}

#[test]
fn case_is_changed_beyond_ascii() {
    let ascii: String = (0..0x80_u8).map(char::from).collect();
    assert_eq!(to_lowercase(&ascii), ascii.to_ascii_lowercase());
    assert_eq!(to_uppercase(&ascii), ascii.to_ascii_uppercase());
    assert!((0..0x80_u8).all(|b| to_capital(char::from(b)) == char::from(b).to_ascii_uppercase()));
    assert_eq!(to_lowercase("ÉCLAIR"), "éclair");
    assert_eq!(to_uppercase("straße"), "STRASSE");
    assert_eq!(to_capital('é'), 'É');
    assert_eq!(to_capital('ß'), 'S');
}

#[test]
fn bytes_are_read_as_text() {
    assert_eq!(from_utf8_lossy("naïve €".as_bytes()), "naïve €");
    assert_eq!(from_utf8_lossy(b"a\xffb"), "a\u{fffd}b");
    assert_eq!(clip("naïve", 3), "na");
    assert_eq!(clip("naïve", 4), "naï");
}

#[test]
fn decoding_undoes_escaping() {
    assert_eq!(percent_decode("50%25 of %E2%82%ac"), "50% of €");
    assert_eq!(percent_decode("plain · text"), "plain · text");
    // What is no whole escape stays as it is.
    assert_eq!(percent_decode("100%"), "100%");
    assert_eq!(percent_decode("%zz%4"), "%zz%4");
    assert_eq!(percent_decode("%ff"), "\u{fffd}");
}
