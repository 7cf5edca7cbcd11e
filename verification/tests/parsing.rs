use layout_converter::LayoutCode;

#[test]
fn parses_known_layouts() {
    assert_eq!(LayoutCode::from_str("dvorak").unwrap(), LayoutCode::Dvorak);
    assert_eq!(LayoutCode::from_str("qwerty").unwrap(), LayoutCode::Qwerty);
    assert_eq!(LayoutCode::from_str("colemak").unwrap(), LayoutCode::Colemak);
    assert_eq!(LayoutCode::from_str("russian").unwrap(), LayoutCode::Russian);
}

#[test]
fn parsing_is_case_insensitive() {
    assert_eq!(LayoutCode::from_str("DVORAK").unwrap(), LayoutCode::Dvorak);
    assert_eq!(LayoutCode::from_str("QwErTy").unwrap(), LayoutCode::Qwerty);
    assert_eq!(LayoutCode::from_str("Colemak").unwrap(), LayoutCode::Colemak);
    assert_eq!(LayoutCode::from_str("ruSSian").unwrap(), LayoutCode::Russian);
}

#[test]
fn unknown_layout_is_rejected() {
    let err = LayoutCode::from_str("azerty").unwrap_err();
    assert_eq!(err.name, "azerty");
    assert!(LayoutCode::from_str("").is_err());
    assert!(LayoutCode::from_str("qwertyy").is_err());
    assert!(LayoutCode::from_str("qwert").is_err());
}
