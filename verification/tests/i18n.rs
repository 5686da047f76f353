use openedit_ui::i18n::{
    english_entries, french_entries, get_locale, german_entries, japanese_entries, set_locale,
    spanish_entries, t, Locale, TranslationTable,
};

fn active(locale: Locale) -> Locale {
    let mut current = Locale::default();
    set_locale(&mut current, locale);
    current
}

#[test]
fn english_lookup() {
    let cur = active(Locale::English);
    assert_eq!(t(&cur, "menu.file"), "File");
    assert_eq!(t(&cur, "menu.edit"), "Edit");
    assert_eq!(t(&cur, "file.save"), "Save");
    assert_eq!(t(&cur, "dialog.cancel"), "Cancel");
}

#[test]
fn german_lookup() {
    let cur = active(Locale::German);
    assert_eq!(t(&cur, "menu.file"), "Datei");
    assert_eq!(t(&cur, "menu.edit"), "Bearbeiten");
    assert_eq!(t(&cur, "file.save"), "Speichern");
    assert_eq!(t(&cur, "dialog.cancel"), "Abbrechen");
}

#[test]
fn french_lookup() {
    let cur = active(Locale::French);
    assert_eq!(t(&cur, "menu.file"), "Fichier");
    assert_eq!(t(&cur, "file.save"), "Enregistrer");
    assert_eq!(t(&cur, "dialog.cancel"), "Annuler");
}

#[test]
fn spanish_lookup() {
    let cur = active(Locale::Spanish);
    assert_eq!(t(&cur, "menu.file"), "Archivo");
    assert_eq!(t(&cur, "file.save"), "Guardar");
    assert_eq!(t(&cur, "dialog.cancel"), "Cancelar");
}

#[test]
fn japanese_lookup() {
    let cur = active(Locale::Japanese);
    assert_eq!(t(&cur, "menu.file"), "\u{30D5}\u{30A1}\u{30A4}\u{30EB}");
    assert_eq!(t(&cur, "file.save"), "\u{4FDD}\u{5B58}");
}

#[test]
fn fallback_to_english_for_missing_key() {
    let cur = active(Locale::Japanese);
    // Japanese doesn't have this key, should fall back to English
    assert_eq!(t(&cur, "status.read_only"), "READ-ONLY");
}

#[test]
fn fallback_returns_key_for_unknown() {
    let cur = active(Locale::English);
    // Completely unknown key — returns the key string itself
    assert_eq!(t(&cur, "nonexistent.key.xyz"), "nonexistent.key.xyz");
}

#[test]
fn locale_from_id_roundtrip() {
    for locale in Locale::all().iter() {
        let id = locale.id();
        let parsed = Locale::from_id(id).expect("should parse");
        assert_eq!(*locale, parsed);
    }
}

#[test]
fn locale_from_id_unknown() {
    assert!(Locale::from_id("xx").is_none());
    assert!(Locale::from_id("").is_none());
}

#[test]
fn locale_display_name_nonempty() {
    for locale in Locale::all().iter() {
        assert!(!locale.display_name().is_empty());
    }
}

#[test]
fn locale_default_is_english() {
    assert_eq!(Locale::default(), Locale::English);
}

#[test]
fn all_english_keys_present() {
    // Verify every key used in other locales also exists in English
    let en_table = TranslationTable::new(english_entries());
    for &(key, _) in german_entries().iter() {
        assert!(en_table.get(key).is_some(), "German key '{}' missing from English", key);
    }
    for &(key, _) in french_entries().iter() {
        assert!(en_table.get(key).is_some(), "French key '{}' missing from English", key);
    }
    for &(key, _) in spanish_entries().iter() {
        assert!(en_table.get(key).is_some(), "Spanish key '{}' missing from English", key);
    }
    for &(key, _) in japanese_entries().iter() {
        assert!(en_table.get(key).is_some(), "Japanese key '{}' missing from English", key);
    }
}

#[test]
fn set_and_get_locale() {
    let mut cur = Locale::default();
    set_locale(&mut cur, Locale::French);
    assert_eq!(get_locale(&cur), Locale::French);
    set_locale(&mut cur, Locale::English);
    assert_eq!(get_locale(&cur), Locale::English);
}

#[test]
fn unsupported_locale_falls_back_to_english() {
    // Korean has no translation table entries, so everything falls back
    let cur = active(Locale::Korean);
    assert_eq!(t(&cur, "menu.file"), "File");
    assert_eq!(t(&cur, "file.save"), "Save");
}

#[test]
fn locale_display_names_in_own_language() {
    assert_eq!(Locale::German.display_name(), "Deutsch");
    assert_eq!(Locale::French.display_name(), "Fran\u{00E7}ais");
    assert_eq!(Locale::Russian.id(), "ru");
    assert_eq!(Locale::all().len(), 9);
}

#[test]
fn partial_locale_falls_back_per_key() {
    // Spanish lacks the status bar strings but has the dialogs.
    let cur = active(Locale::Spanish);
    assert_eq!(t(&cur, "status.plain_text"), "Plain Text");
    assert_eq!(t(&cur, "dialog.yes"), "S\u{00ED}");
}
