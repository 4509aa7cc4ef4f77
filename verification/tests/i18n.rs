use editor_core::i18n::Language;
use editor_core::i18n::Translations;

#[test]
fn test_default_language() {
    let translations = Translations::default();
    assert_eq!(translations.language(), Language::English);
}

#[test]
fn test_new_with_language() {
    let translations = Translations::new(Language::French);
    assert_eq!(translations.language(), Language::French);
}

#[test]
fn test_set_language() {
    let mut translations = Translations::new(Language::English);
    translations.set_language(Language::Spanish);
    assert_eq!(translations.language(), Language::Spanish);
}

#[test]
fn test_english_translations() {
    let t = Translations::new(Language::English);
    assert_eq!(t.search_placeholder(), "Search...");
    assert_eq!(t.replace_placeholder(), "Replace...");
    assert_eq!(t.case_sensitive_label(), "Case sensitive");
    assert_eq!(t.previous_match_tooltip(), "Previous match (Shift+F3)");
    assert_eq!(t.next_match_tooltip(), "Next match (F3 / Enter)");
    assert_eq!(t.close_search_tooltip(), "Close search dialog (Esc)");
    assert_eq!(t.replace_current_tooltip(), "Replace current match");
    assert_eq!(t.replace_all_tooltip(), "Replace all matches");
}

#[test]
fn test_french_translations() {
    let t = Translations::new(Language::French);
    assert_eq!(t.search_placeholder(), "Rechercher...");
    assert_eq!(t.replace_placeholder(), "Remplacer...");
    assert_eq!(t.case_sensitive_label(), "Sensible à la casse");
    assert_eq!(t.previous_match_tooltip(), "Résultat précédent (Maj+F3)");
    assert_eq!(t.next_match_tooltip(), "Résultat suivant (F3 / Entrée)");
    assert_eq!(t.close_search_tooltip(), "Fermer la recherche (Échap)");
    assert_eq!(t.replace_current_tooltip(), "Remplacer l'occurrence actuelle");
    assert_eq!(t.replace_all_tooltip(), "Tout remplacer");
}

#[test]
fn test_spanish_translations() {
    let t = Translations::new(Language::Spanish);
    assert_eq!(t.search_placeholder(), "Buscar...");
    assert_eq!(t.replace_placeholder(), "Reemplazar...");
    assert_eq!(t.case_sensitive_label(), "Distinguir mayúsculas");
    assert_eq!(t.previous_match_tooltip(), "Coincidencia anterior (Mayús+F3)");
    assert_eq!(t.next_match_tooltip(), "Siguiente coincidencia (F3 / Enter)");
    assert_eq!(t.close_search_tooltip(), "Cerrar búsqueda (Esc)");
    assert_eq!(t.replace_current_tooltip(), "Reemplazar coincidencia actual");
    assert_eq!(t.replace_all_tooltip(), "Reemplazar todo");
}

#[test]
fn test_language_switching() {
    let mut t = Translations::new(Language::English);
    assert_eq!(t.search_placeholder(), "Search...");

    t.set_language(Language::French);
    assert_eq!(t.search_placeholder(), "Rechercher...");

    t.set_language(Language::Spanish);
    assert_eq!(t.search_placeholder(), "Buscar...");
}
