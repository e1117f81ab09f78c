use frontend::i18n::{
    available_languages, current_language, language_label, set_language, t, t_with_args, Catalog,
    CatalogError,
};

const EN: &str = "hello = Hello\ngreet = Hi { $name }\nonly-en = English only\n";
const CS: &str = "hello = Ahoj\ngreet = Ahoj { $name }\n";

fn en_cs_catalog() -> Catalog {
    match Catalog::new(vec![
        ("en".to_string(), EN.to_string()),
        ("cs".to_string(), CS.to_string()),
    ]) {
        Ok(c) => c,
        Err(e) => panic!("catalog refused: {:?}", e),
    }
}

#[test]
fn english_is_current_at_first() {
    let c = en_cs_catalog();
    assert_eq!(current_language(&c), "en");
    assert_eq!(t(&c, "hello"), "Hello");
}

#[test]
fn languages_in_source_order() {
    let c = en_cs_catalog();
    assert_eq!(available_languages(&c), vec!["en".to_string(), "cs".to_string()]);
}

#[test]
fn switching_language_changes_translations() {
    let mut c = en_cs_catalog();
    assert!(set_language(&mut c, "cs"));
    assert_eq!(current_language(&c), "cs");
    assert_eq!(t(&c, "hello"), "Ahoj");
}

#[test]
fn unknown_language_is_ignored() {
    let mut c = en_cs_catalog();
    assert!(set_language(&mut c, "cs"));
    assert!(!set_language(&mut c, "de"));
    assert_eq!(current_language(&c), "cs");
    assert_eq!(t(&c, "hello"), "Ahoj");
}

#[test]
fn setting_same_language_twice() {
    let mut c = en_cs_catalog();
    assert!(set_language(&mut c, "cs"));
    assert!(set_language(&mut c, "cs"));
    assert_eq!(current_language(&c), "cs");
}

#[test]
fn missing_message_falls_back_to_english() {
    let mut c = en_cs_catalog();
    set_language(&mut c, "cs");
    assert_eq!(t(&c, "only-en"), "English only");
}

#[test]
fn missing_everywhere_echoes_key() {
    let mut c = en_cs_catalog();
    assert_eq!(t(&c, "no-such-key"), "no-such-key");
    set_language(&mut c, "cs");
    assert_eq!(t(&c, "no-such-key"), "no-such-key");
}

#[test]
fn arguments_are_placed() {
    let mut c = en_cs_catalog();
    assert_eq!(t_with_args(&c, "greet", &[("name", "Bob")]), "Hi \u{2068}Bob\u{2069}");
    set_language(&mut c, "cs");
    assert_eq!(t_with_args(&c, "greet", &[("name", "Eva")]), "Ahoj \u{2068}Eva\u{2069}");
    assert_eq!(t_with_args(&c, "missing", &[("name", "Eva")]), "missing");
}

#[test]
fn later_source_replaces_language() {
    let c = match Catalog::new(vec![
        ("en".to_string(), "hello = One\n".to_string()),
        ("en".to_string(), "hello = Two\n".to_string()),
    ]) {
        Ok(c) => c,
        Err(e) => panic!("catalog refused: {:?}", e),
    };
    assert_eq!(available_languages(&c), vec!["en".to_string()]);
    assert_eq!(t(&c, "hello"), "Two");
}

#[test]
fn invalid_ftl_is_reported() {
    let r = Catalog::new(vec![
        ("en".to_string(), EN.to_string()),
        ("cs".to_string(), "hello = \n= broken {".to_string()),
    ]);
    match r {
        Err(CatalogError::InvalidFtl(code)) => assert_eq!(code, "cs"),
        Err(e) => panic!("wrong error: {:?}", e),
        Ok(_) => panic!("broken FTL accepted"),
    }
}

#[test]
fn invalid_language_is_reported_first() {
    let r = Catalog::new(vec![
        ("not a language!".to_string(), EN.to_string()),
        ("cs".to_string(), "= broken {".to_string()),
    ]);
    match r {
        Err(CatalogError::InvalidLanguage(code)) => assert_eq!(code, "not a language!"),
        Err(e) => panic!("wrong error: {:?}", e),
        Ok(_) => panic!("bad code accepted"),
    }
}

#[test]
fn without_english_keys_echo() {
    let mut c = match Catalog::new(vec![("cs".to_string(), CS.to_string())]) {
        Ok(c) => c,
        Err(e) => panic!("catalog refused: {:?}", e),
    };
    assert_eq!(t(&c, "hello"), "hello");
    assert!(set_language(&mut c, "cs"));
    assert_eq!(t(&c, "hello"), "Ahoj");
}

#[test]
fn language_labels() {
    assert_eq!(language_label("en"), "\u{1f1ec}\u{1f1e7} EN");
    assert_eq!(language_label("cs"), "\u{1f1e8}\u{1f1ff} CS");
    assert_eq!(language_label("de"), "??");
}

#[test]
fn no_arguments_is_plain_lookup() {
    let mut c = en_cs_catalog();
    for key in ["hello", "greet", "only-en", "missing"] {
        assert_eq!(t_with_args(&c, key, &[]), t(&c, key));
    }
    set_language(&mut c, "cs");
    for key in ["hello", "greet", "only-en", "missing"] {
        assert_eq!(t_with_args(&c, key, &[]), t(&c, key));
    }
}

#[test]
fn language_codes_are_kept_as_written() {
    let mut c = Catalog::new(vec![
        ("en".to_string(), "hello = Hello\n".to_string()),
        ("EN".to_string(), "hello = Loud\n".to_string()),
    ])
    .unwrap();
    assert_eq!(available_languages(&c), vec!["en".to_string(), "EN".to_string()]);
    assert!(set_language(&mut c, "EN"));
    assert_eq!(t(&c, "hello"), "Loud");
    assert!(!set_language(&mut c, "En"));
}

#[test]
fn catalog_with_english_starts_on_a_language_it_has() {
    let c = en_cs_catalog();
    assert!(available_languages(&c).contains(&current_language(&c)));
}
