use alacritty_core::string::{ShortenDirection, StrShortener};

#[test]
fn into_shortened_with_shortener() {
    let s = "Hello";
    let len = s.chars().count();
    assert_eq!("", StrShortener::new("", 1, ShortenDirection::Left, Some('.')).collect());

    assert_eq!(".", StrShortener::new(s, 1, ShortenDirection::Right, Some('.')).collect());

    assert_eq!(".", StrShortener::new(s, 1, ShortenDirection::Left, Some('.')).collect());

    assert_eq!("H.", StrShortener::new(s, 2, ShortenDirection::Right, Some('.')).collect());

    assert_eq!(".o", StrShortener::new(s, 2, ShortenDirection::Left, Some('.')).collect());

    assert_eq!(s, &StrShortener::new(s, len * 2, ShortenDirection::Right, Some('.')).collect());

    assert_eq!(s, &StrShortener::new(s, len * 2, ShortenDirection::Left, Some('.')).collect());

    let s = "ちはP";
    let len = 2 + 2 + 1;
    assert_eq!(".", &StrShortener::new(s, 1, ShortenDirection::Right, Some('.')).collect());

    assert_eq!(&".", &StrShortener::new(s, 1, ShortenDirection::Left, Some('.')).collect());

    assert_eq!(".", &StrShortener::new(s, 2, ShortenDirection::Right, Some('.')).collect());

    assert_eq!(".P", &StrShortener::new(s, 2, ShortenDirection::Left, Some('.')).collect());

    assert_eq!("ち .", &StrShortener::new(s, 3, ShortenDirection::Right, Some('.')).collect());

    assert_eq!(".P", &StrShortener::new(s, 3, ShortenDirection::Left, Some('.')).collect());

    assert_eq!(
        "ち は P",
        &StrShortener::new(s, len * 2, ShortenDirection::Left, Some('.')).collect()
    );

    assert_eq!(
        "ち は P",
        &StrShortener::new(s, len * 2, ShortenDirection::Right, Some('.')).collect()
    );
}

#[test]
fn into_shortened_without_shortener() {
    let s = "Hello";
    assert_eq!("", StrShortener::new("", 1, ShortenDirection::Left, None).collect());

    assert_eq!("H", &StrShortener::new(s, 1, ShortenDirection::Right, None).collect());

    assert_eq!("o", &StrShortener::new(s, 1, ShortenDirection::Left, None).collect());

    assert_eq!("He", &StrShortener::new(s, 2, ShortenDirection::Right, None).collect());

    assert_eq!("lo", &StrShortener::new(s, 2, ShortenDirection::Left, None).collect());

    assert_eq!(&s, &StrShortener::new(s, s.len(), ShortenDirection::Right, None).collect());

    assert_eq!(&s, &StrShortener::new(s, s.len(), ShortenDirection::Left, None).collect());

    let s = "こJんにちはP";
    let len = 2 + 1 + 2 + 2 + 2 + 2 + 1;
    assert_eq!("", &StrShortener::new(s, 1, ShortenDirection::Right, None).collect());

    assert_eq!("P", &StrShortener::new(s, 1, ShortenDirection::Left, None).collect());

    assert_eq!("こ ", &StrShortener::new(s, 2, ShortenDirection::Right, None).collect());

    assert_eq!("P", &StrShortener::new(s, 2, ShortenDirection::Left, None).collect());

    assert_eq!("こ J", &StrShortener::new(s, 3, ShortenDirection::Right, None).collect());

    assert_eq!("は P", &StrShortener::new(s, 3, ShortenDirection::Left, None).collect());

    assert_eq!(
        "こ Jん に ち は P",
        &StrShortener::new(s, len, ShortenDirection::Left, None).collect()
    );

    assert_eq!(
        "こ Jん に ち は P",
        &StrShortener::new(s, len, ShortenDirection::Right, None).collect()
    );
}
