use applist::text::{chars_of, contains_chars, fold_ascii, is_whitespace};

#[test]
fn whitespace_is_what_the_standard_library_calls_whitespace() {
    let mut code: u32 = 0;
    while code <= 0x10FFFF {
        if let Some(c) = char::from_u32(code) {
            assert_eq!(is_whitespace(c), c.is_whitespace(), "U+{:04X}", code);
        }
        code += 1;
    }
}

#[test]
fn whitespace_examples() {
    for c in [' ', '\t', '\n', '\r', '\u{b}', '\u{c}', '\u{85}', '\u{a0}', '\u{1680}', '\u{2000}',
        '\u{200a}', '\u{2028}', '\u{2029}', '\u{202f}', '\u{205f}', '\u{3000}']
    {
        assert!(is_whitespace(c), "{:?}", c);
    }
    for c in ['a', '=', '[', '\u{8}', '\u{e}', '\u{1f}', '\u{200b}', '\u{180e}', '\u{feff}', '\0'] {
        assert!(!is_whitespace(c), "{:?}", c);
    }
}

#[test]
fn folding_maps_ascii_capitals_only() {
    let mut code: u32 = 0;
    while code <= 0x10FFFF {
        if let Some(c) = char::from_u32(code) {
            assert_eq!(fold_ascii(c), c.to_ascii_lowercase() as u32, "U+{:04X}", code);
        }
        code += 1;
    }
    assert_eq!(fold_ascii('A'), 'a' as u32);
    assert_eq!(fold_ascii('Z'), 'z' as u32);
    assert_eq!(fold_ascii('@'), '@' as u32);
    assert_eq!(fold_ascii('['), '[' as u32);
    assert_eq!(fold_ascii('É'), 'É' as u32);
}

#[test]
fn chars_of_gives_the_characters_in_order() {
    assert_eq!(chars_of(""), Vec::<char>::new());
    assert_eq!(chars_of("abc"), vec!['a', 'b', 'c']);
    assert_eq!(chars_of("é日\u{1F600}x"), vec!['é', '日', '\u{1F600}', 'x']);
}

#[test]
fn contains_examples() {
    let hay = chars_of("firefox");
    assert!(contains_chars(&hay, &chars_of("")));
    assert!(contains_chars(&hay, &chars_of("fire")));
    assert!(contains_chars(&hay, &chars_of("fox")));
    assert!(contains_chars(&hay, &chars_of("ref")));
    assert!(contains_chars(&hay, &chars_of("firefox")));
    assert!(!contains_chars(&hay, &chars_of("firefoxx")));
    assert!(!contains_chars(&hay, &chars_of("fx")));
    assert!(!contains_chars(&hay, &chars_of("Fire")));
    assert!(contains_chars(&chars_of(""), &chars_of("")));
    assert!(!contains_chars(&chars_of(""), &chars_of("a")));
}

#[test]
fn contains_agrees_with_the_standard_library() {
    let alphabet = ['a', 'b', 'é'];
    let mut texts: Vec<String> = vec![String::new()];
    let mut layer: Vec<String> = vec![String::new()];
    for _ in 0..5 {
        let mut grown = Vec::new();
        for t in &layer {
            for c in alphabet {
                let mut u = t.clone();
                u.push(c);
                grown.push(u);
            }
        }
        texts.extend(grown.iter().cloned());
        layer = grown;
    }
    for hay in &texts {
        for needle in texts.iter().filter(|n| n.chars().count() <= 3) {
            assert_eq!(
                contains_chars(&chars_of(hay), &chars_of(needle)),
                hay.contains(needle.as_str()),
                "{:?} in {:?}",
                needle,
                hay
            );
        }
    }
}
