use parse_mediawiki_dump_reboot::match_namespace;
use parse_mediawiki_dump_reboot::schema::Namespace;

#[test]
fn codes_round_trip() {
    for code in [-2, -1, 0, 1, 2, 3, 4, 5, 6, 7, 8, 9, 10, 11, 12, 13, 14, 15, 100, 101, 118, 119, 710, 711, 828, 829, 2300, 2301, 2302, 2303] {
        let ns = Namespace::from_i32(code).unwrap();
        assert_eq!(ns.to_int(), code);
        assert_eq!(Namespace::from(code), ns);
    }
}

#[test]
fn known_codes() {
    assert_eq!(Namespace::from_i32(0), Some(Namespace::Main));
    assert_eq!(Namespace::from_i32(4), Some(Namespace::Wikipedia));
    assert_eq!(Namespace::from_i32(828), Some(Namespace::Module));
    assert_eq!(Namespace::Category.to_int(), 14);
}

#[test]
fn unknown_codes() {
    assert_eq!(Namespace::from_i32(16), None);
    assert_eq!(Namespace::from_i32(-3), None);
    assert_eq!(Namespace::from(3000), Namespace::Unknown);
    assert_eq!(Namespace::Unknown.to_int(), -999);
}

#[test]
fn export_namespace_matches_exactly() {
    assert!(match_namespace(Some("http://www.mediawiki.org/xml/export-0.10/")));
    assert!(!match_namespace(Some("http://www.mediawiki.org/xml/export-0.11/")));
    assert!(!match_namespace(Some("")));
    assert!(!match_namespace(None));
}
