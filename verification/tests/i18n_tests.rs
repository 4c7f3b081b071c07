use oci_sniper_rs::i18n::{interpolate, supported_locales, I18nCatalog, I18nError};

#[test]
fn falls_back_to_english_when_key_missing_in_requested_locale() {
    let catalog =
        I18nCatalog::from_locale_files("en", r#"{"hello":"Hello {name}"}"#, r#"{}"#, r#"{}"#)
            .unwrap();
    let value = catalog.t("zh-CN", "hello", &[("name", "Alice")]);

    assert_eq!(value, "Hello Alice");
}

#[test]
fn prefers_the_requested_locale_and_falls_back_to_the_key() {
    let catalog = I18nCatalog::from_locale_files(
        "en",
        r#"{"hello":"Hello {name}"}"#,
        r#"{"hello":"你好 {name}"}"#,
        r#"{}"#,
    )
    .unwrap();
    assert_eq!(catalog.t("zh-CN", "hello", &[("name", "Bob")]), "你好 Bob");
    assert_eq!(catalog.t("fr", "hello", &[("name", "Bob")]), "Hello Bob");
    assert_eq!(catalog.t("en", "missing.key", &[]), "missing.key");
    assert!(catalog.has_key("zh-TW", "hello"));
    assert!(!catalog.has_key("zh-TW", "missing.key"));
}

#[test]
fn names_the_first_bad_locale_file() {
    let err = I18nCatalog::from_locale_files("en", "{}", "[1, 2]", "not json").unwrap_err();
    assert_eq!(err, I18nError::InvalidLocaleFile("zh-CN".to_string()));
    let err = I18nCatalog::from_locale_files("en", r#"{"a": 1}"#, "{}", "{}").unwrap_err();
    assert_eq!(err, I18nError::InvalidLocaleFile("en".to_string()));
}

#[test]
fn interpolates_every_occurrence_in_order() {
    assert_eq!(interpolate("{a}-{b}-{a}", &[("a", "1"), ("b", "2")]), "1-2-1");
    assert_eq!(interpolate("{a}", &[("a", "{b}"), ("b", "x")]), "x");
    assert_eq!(interpolate("no placeholders", &[("a", "1")]), "no placeholders");
    assert_eq!(supported_locales(), vec!["en", "zh-CN", "zh-TW"]);
}

#[test]
fn unknown_locale_reads_like_the_default_locale() {
    let catalog = I18nCatalog::from_locale_files(
        "zh-TW",
        r#"{"k":"en {v}"}"#,
        r#"{}"#,
        r#"{"k":"tw {v}"}"#,
    )
    .unwrap();
    assert_eq!(catalog.t("xx", "k", &[("v", "1")]), catalog.t("zh-TW", "k", &[("v", "1")]));
    assert_eq!(catalog.t("zh-CN", "k", &[("v", "1")]), "tw 1");
    assert_eq!(catalog.t("xx", "nothing", &[]), "nothing");
}
