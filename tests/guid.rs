use smoo::errors::EncodingError;
use smoo::guid::Guid;

#[test]
fn parses_with_separators_anywhere() {
    let g = Guid::parse("1000000000-2000-3000-4000-5000000000").unwrap();
    assert_eq!(g.id, [0x10, 0, 0, 0, 0, 0x20, 0, 0x30, 0, 0x40, 0, 0x50, 0, 0, 0, 0]);
    let h = Guid::parse("1020304050-0000-0000-0000-0000000000").unwrap();
    assert_eq!(h.id[..5], [0x10, 0x20, 0x30, 0x40, 0x50]);
}

#[test]
fn parse_accepts_uppercase() {
    let g = Guid::parse("ABCDEF00000000000000000000000001").unwrap();
    assert_eq!(g.id[0], 0xab);
    assert_eq!(g.id[15], 1);
}

#[test]
fn parse_refuses_bad_text() {
    assert_eq!(Guid::parse("123").unwrap_err(), EncodingError::HexConversion);
    assert_eq!(Guid::parse("zz000000000000000000000000000000").unwrap_err(), EncodingError::HexConversion);
}

#[test]
fn text_is_grouped_lowercase_hex() {
    let g = Guid { id: [0xab, 1, 2, 3, 4, 5, 6, 7, 8, 9, 10, 11, 12, 13, 14, 0xff] };
    assert_eq!(g.to_text(), "ab010203-0405-0607-0809-0a0b0c0d0eff");
    assert_eq!(Guid::parse(&g.to_text()).unwrap(), g);
}

#[test]
fn server_id_is_all_zero() {
    assert!(Guid::server().is_server());
    assert!(!Guid { id: [1; 16] }.is_server());
}
