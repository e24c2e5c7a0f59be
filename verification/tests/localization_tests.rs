use tidy_cleaner::localization::loader::{Language, LoadError, LocalizationBundle};
use tidy_cleaner::localization::{LocalizationService, EN_XML, RU_XML};

#[test]
fn test_localization_switching() {
    let mut service = LocalizationService::new();
    service.set_language(Language::En);
    assert_eq!(service.t("nav.dashboard"), "Dashboard");

    service.set_language(Language::Ru);
    assert_eq!(service.t("nav.dashboard"), "Мониторинг");
}

#[test]
fn test_fallback() {
    let service = LocalizationService::new();
    assert_eq!(
        service.t("non_existent_key_12345"),
        "non_existent_key_12345"
    );
}

#[test]
fn test_all_keys_match_between_en_and_ru() {
    let en = LocalizationBundle::from_xml(EN_XML).expect("en.xml parses");
    let ru = LocalizationBundle::from_xml(RU_XML).expect("ru.xml parses");

    assert!(!en.is_empty(), "en.xml should not be empty");
    assert!(!ru.is_empty(), "ru.xml should not be empty");

    // No key is defined twice: every `string` element gives a distinct key.
    assert_eq!(en.len(), EN_XML.matches("<string ").count());
    assert_eq!(ru.len(), RU_XML.matches("<string ").count());

    for k in en.keys() {
        assert!(ru.get(&k).is_some(), "Key '{}' missing in ru.xml", k);
        assert!(!en.get(&k).unwrap().trim().is_empty(), "Empty translation for key '{}' in en.xml", k);
    }
    for k in ru.keys() {
        assert!(en.get(&k).is_some(), "Key '{}' missing in en.xml", k);
        assert!(!ru.get(&k).unwrap().trim().is_empty(), "Empty translation for key '{}' in ru.xml", k);
    }
}

#[test]
fn test_russian_falls_back_to_english() {
    let mut service = LocalizationService::try_new().expect("built-in files parse");
    service.set_language(Language::Ru);
    assert_eq!(service.current_language(), Language::Ru);
    // A key every language has shows the current language's text.
    assert_eq!(service.t("settings.title"), "Настройки");
    assert_eq!(service.t("missing.key"), "missing.key");
    assert!(service.bundle_for(Language::En).is_some());
    assert!(service.bundle_for(Language::Ru).is_some());
}

#[test]
fn test_bundle_from_xml() {
    let xml = "<resources>\n  <string name=\"a\">First</string>\n  <string name=\"b\">Tom &amp; Jerry</string>\n  <string name=\"a\">Second</string>\n  <other>ignored</other>\n</resources>";
    let bundle = LocalizationBundle::from_xml(xml).expect("parses");
    assert_eq!(bundle.len(), 2);
    assert_eq!(bundle.get("a"), Some("Second"));
    assert_eq!(bundle.get("b"), Some("Tom & Jerry"));
    assert_eq!(bundle.get("c"), None);
    assert_eq!(bundle.get_or_default("c"), "c");
    let mut keys = bundle.keys();
    keys.sort();
    assert_eq!(keys, vec!["a".to_string(), "b".to_string()]);
}

#[test]
fn test_bundle_errors() {
    assert_eq!(
        LocalizationBundle::from_xml("<r><string name=\"a\">x &bogus; y</string></r>").unwrap_err(),
        LoadError::BadEscape
    );
    assert_eq!(
        LocalizationBundle::from_xml("<r><string name=\"a\">x</b></r>").unwrap_err(),
        LoadError::Malformed
    );
    assert!(LocalizationBundle::new().is_empty());
}

#[test]
fn test_language_names() {
    assert_eq!(Language::from_str_name("ru"), Language::Ru);
    assert_eq!(Language::from_str_name("RUSSIAN"), Language::Ru);
    assert_eq!(Language::from_str_name("Русский"), Language::Ru);
    assert_eq!(Language::from_str_name("en"), Language::En);
    assert_eq!(Language::from_str_name("de"), Language::En);
    for l in [Language::En, Language::Ru] {
        assert_eq!(Language::from_str_name(l.as_str()), l);
    }
    assert_eq!(Language::default(), Language::En);
}
