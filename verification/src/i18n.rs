//! Translated text for the search dialog.
//!
//! The editing engine itself holds no user-visible prose; these are
//! the labels, placeholders and tooltips of the search and replace
//! surface, in the languages the editor ships with.

use vstd::prelude::*;

verus! {

/// Supported languages for the editor surface.
#[derive(Debug, Clone, Copy, PartialEq, Eq, Structural)]
pub enum Language {
    /// English language.
    English,
    /// French language.
    French,
    /// Spanish language.
    Spanish,
}

impl Default for Language {
    /// English is the default language.
    fn default() -> (r: Language)
        ensures
            r == Language::English,
    {
        Language::English
    }
}

/// Provides translated text for the search dialog's elements.
#[derive(Debug, Clone, Copy)]
pub struct Translations {
    language: Language,
}

impl Translations {
    /// The language the translations are given in.
    pub closed spec fn spec_language(&self) -> Language {
        self.language
    }

    /// Creates translations for the given language.
    pub fn new(language: Language) -> (r: Translations)
        ensures
            r.spec_language() == language,
    {
        Translations { language }
    }

    /// Returns the current language.
    pub fn language(&self) -> (r: Language)
        ensures
            r == self.spec_language(),
    {
        self.language
    }

    /// Sets the language.
    pub fn set_language(&mut self, language: Language)
        ensures
            final(self).spec_language() == language,
    {
        self.language = language;
    }

    /// Returns the placeholder text for the search input field.
    pub fn search_placeholder(&self) -> (r: &'static str)
        ensures
            r@ == match self.spec_language() {
                Language::English => "Search..."@,
                Language::French => "Rechercher..."@,
                Language::Spanish => "Buscar..."@,
            },
    {
        match self.language {
            Language::English => "Search...",
            Language::French => "Rechercher...",
            Language::Spanish => "Buscar...",
        }
    }

    /// Returns the placeholder text for the replace input field.
    pub fn replace_placeholder(&self) -> (r: &'static str)
        ensures
            r@ == match self.spec_language() {
                Language::English => "Replace..."@,
                Language::French => "Remplacer..."@,
                Language::Spanish => "Reemplazar..."@,
            },
    {
        match self.language {
            Language::English => "Replace...",
            Language::French => "Remplacer...",
            Language::Spanish => "Reemplazar...",
        }
    }

    /// Returns the label text for the case sensitive checkbox.
    pub fn case_sensitive_label(&self) -> (r: &'static str)
        ensures
            r@ == match self.spec_language() {
                Language::English => "Case sensitive"@,
                Language::French => "Sensible à la casse"@,
                Language::Spanish => "Distinguir mayúsculas"@,
            },
    {
        match self.language {
            Language::English => "Case sensitive",
            Language::French => "Sensible à la casse",
            Language::Spanish => "Distinguir mayúsculas",
        }
    }

    /// Returns the tooltip text for the previous match button.
    pub fn previous_match_tooltip(&self) -> (r: &'static str)
        ensures
            r@ == match self.spec_language() {
                Language::English => "Previous match (Shift+F3)"@,
                Language::French => "Résultat précédent (Maj+F3)"@,
                Language::Spanish => "Coincidencia anterior (Mayús+F3)"@,
            },
    {
        match self.language {
            Language::English => "Previous match (Shift+F3)",
            Language::French => "Résultat précédent (Maj+F3)",
            Language::Spanish => "Coincidencia anterior (Mayús+F3)",
        }
    }

    /// Returns the tooltip text for the next match button.
    pub fn next_match_tooltip(&self) -> (r: &'static str)
        ensures
            r@ == match self.spec_language() {
                Language::English => "Next match (F3 / Enter)"@,
                Language::French => "Résultat suivant (F3 / Entrée)"@,
                Language::Spanish => "Siguiente coincidencia (F3 / Enter)"@,
            },
    {
        match self.language {
            Language::English => "Next match (F3 / Enter)",
            Language::French => "Résultat suivant (F3 / Entrée)",
            Language::Spanish => "Siguiente coincidencia (F3 / Enter)",
        }
    }

    /// Returns the tooltip text for the close search dialog button.
    pub fn close_search_tooltip(&self) -> (r: &'static str)
        ensures
            r@ == match self.spec_language() {
                Language::English => "Close search dialog (Esc)"@,
                Language::French => "Fermer la recherche (Échap)"@,
                Language::Spanish => "Cerrar búsqueda (Esc)"@,
            },
    {
        match self.language {
            Language::English => "Close search dialog (Esc)",
            Language::French => "Fermer la recherche (Échap)",
            Language::Spanish => "Cerrar búsqueda (Esc)",
        }
    }

    /// Returns the tooltip text for the replace current match button.
    pub fn replace_current_tooltip(&self) -> (r: &'static str)
        ensures
            r@ == match self.spec_language() {
                Language::English => "Replace current match"@,
                Language::French => "Remplacer l'occurrence actuelle"@,
                Language::Spanish => "Reemplazar coincidencia actual"@,
            },
    {
        match self.language {
            Language::English => "Replace current match",
            Language::French => "Remplacer l'occurrence actuelle",
            Language::Spanish => "Reemplazar coincidencia actual",
        }
    }

    /// Returns the tooltip text for the replace all matches button.
    pub fn replace_all_tooltip(&self) -> (r: &'static str)
        ensures
            r@ == match self.spec_language() {
                Language::English => "Replace all matches"@,
                Language::French => "Tout remplacer"@,
                Language::Spanish => "Reemplazar todo"@,
            },
    {
        match self.language {
            Language::English => "Replace all matches",
            Language::French => "Tout remplacer",
            Language::Spanish => "Reemplazar todo",
        }
    }
}

impl Default for Translations {
    /// Translations in the default language.
    fn default() -> (r: Translations)
        ensures
            r.spec_language() == Language::English,
    {
        Translations { language: Language::English }
    }
}

} // verus!
