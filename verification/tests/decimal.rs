use pwmp::decimal::Decimal;

#[test]
fn decimal_to_string() {
    assert_eq!(Decimal::new(4, 20).to_text(), "4.20".to_string());
    assert_eq!(Decimal::new(-3, 7).to_text(), "-3.7".to_string());
    assert_eq!(Decimal::new(64, 92).to_text(), "64.92".to_string());
    assert_eq!(Decimal::new(-64, 92).to_text(), "-64.92".to_string());
}

#[test]
fn decimal_cmp() {
    assert_eq!(Decimal::new(3, 5), Decimal::new(3, 5));
    assert_eq!(Decimal::new(-45, 2), Decimal::new(-45, 2));
}

#[test]
fn decimal_count_scale() {
    assert_eq!(Decimal::new(4, 20).scale(), 2);
    assert_eq!(Decimal::new(-3, 7).scale(), 1);
    assert_eq!(Decimal::new(64, 92).scale(), 2);
    assert_eq!(Decimal::new(-64, 92).scale(), 2);
    assert_eq!(Decimal::new(23, 112).scale(), 3);
}

#[test]
fn decimal_text_edges() {
    assert_eq!(Decimal::new(0, 0).to_text(), "0.0".to_string());
    assert_eq!(Decimal::new(-128, 255).to_text(), "-128.255".to_string());
    assert_eq!(Decimal::new(127, 0).to_text(), "127.0".to_string());
    assert_eq!(Decimal::new(0, 0).scale(), 0);
    assert_eq!(Decimal::new(0, 255).scale(), 3);
}

#[test]
fn decimal_parse_round_trip() {
    for d in [
        Decimal::new(4, 20),
        Decimal::new(-3, 7),
        Decimal::new(0, 0),
        Decimal::new(-128, 255),
        Decimal::new(127, 0),
    ] {
        assert_eq!(Decimal::parse(&d.to_text()), Some(d));
    }
}

#[test]
fn decimal_parse_rejects_malformed_text() {
    assert_eq!(Decimal::parse(""), None);
    assert_eq!(Decimal::parse("4"), None);
    assert_eq!(Decimal::parse("4."), None);
    assert_eq!(Decimal::parse(".5"), None);
    assert_eq!(Decimal::parse("-.5"), None);
    assert_eq!(Decimal::parse("a.b"), None);
    assert_eq!(Decimal::parse("4.256"), None);
    assert_eq!(Decimal::parse("128.0"), None);
    assert_eq!(Decimal::parse("-129.0"), None);
    assert_eq!(Decimal::parse("4.1000"), None);
    // Magnitude limits depend on the sign, as in the stored form.
    assert_eq!(Decimal::parse("-128.0"), Some(Decimal::new(-128, 0)));
    assert_eq!(Decimal::parse("127.255"), Some(Decimal::new(127, 255)));
}

#[test]
fn decimal_accessors() {
    let d = Decimal::new(-7, 45);
    assert_eq!(d.whole(), -7);
    assert_eq!(d.fraction(), 45);
    assert_eq!(Decimal::default(), Decimal::new(0, 0));
}
