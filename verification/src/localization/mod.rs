//! Translated user interface texts.

pub mod loader;
pub mod resources;
pub mod xml;

pub use loader::{Language, LocalizationBundle};
pub use resources::{EN_XML, RU_XML};

use vstd::prelude::*;
use crate::localization::loader::{LoadError, bundle_of_xml};

verus! {

/// The text shown for `key`: the current language's translation, else the
/// English one, else the key itself.
pub open spec fn translation(
    current: Map<Seq<char>, Seq<char>>,
    english: Map<Seq<char>, Seq<char>>,
    key: Seq<char>,
) -> Seq<char> {
    if current.contains_key(key) {
        current[key]
    } else if english.contains_key(key) {
        english[key]
    } else {
        key
    }
}

/// The text a localization service shows for `key`: what `t` returns.
pub open spec fn text_of(loc: LocalizationService, key: Seq<char>) -> Seq<char> {
    translation(loc.translations(loc.language()), loc.translations(Language::En), key)
}

/// The translations of both languages and the language in use.
#[derive(Debug)]
pub struct LocalizationService {
    current_language: Language,
    en: LocalizationBundle,
    ru: LocalizationBundle,
}

impl LocalizationService {
    /// The language in use.
    pub closed spec fn language(&self) -> Language {
        self.current_language
    }

    /// The translations of `lang`.
    pub closed spec fn translations(&self, lang: Language) -> Map<Seq<char>, Seq<char>> {
        match lang {
            Language::En => self.en@,
            Language::Ru => self.ru@,
        }
    }

    /// Loads the built-in translation files, with English in use. Both files
    /// must parse.
    pub fn new() -> (r: Self)
        requires
            bundle_of_xml(EN_XML@) is Ok,
            bundle_of_xml(RU_XML@) is Ok,
        ensures
            r.language() == Language::En,
            Ok::<Map<Seq<char>, Seq<char>>, LoadError>(r.translations(Language::En))
                == bundle_of_xml(EN_XML@),
            Ok::<Map<Seq<char>, Seq<char>>, LoadError>(r.translations(Language::Ru))
                == bundle_of_xml(RU_XML@),
    {
        let en = LocalizationBundle::from_xml(EN_XML);
        let ru = LocalizationBundle::from_xml(RU_XML);
        match (en, ru) {
            (Ok(en), Ok(ru)) => LocalizationService { current_language: Language::En, en, ru },
            _ => LocalizationService {
                current_language: Language::En,
                en: LocalizationBundle::new(),
                ru: LocalizationBundle::new(),
            },
        }
    }

    /// Loads the built-in translation files when both parse, and reports
    /// the first file's error otherwise.
    pub fn try_new() -> (r: Result<Self, LoadError>)
        ensures
            match r {
                Ok(s) => {
                    &&& s.language() == Language::En
                    &&& bundle_of_xml(EN_XML@) == Ok::<Map<Seq<char>, Seq<char>>, LoadError>(
                        s.translations(Language::En),
                    )
                    &&& bundle_of_xml(RU_XML@) == Ok::<Map<Seq<char>, Seq<char>>, LoadError>(
                        s.translations(Language::Ru),
                    )
                },
                Err(e) => bundle_of_xml(EN_XML@) == Err::<Map<Seq<char>, Seq<char>>, LoadError>(
                    e,
                ) || (bundle_of_xml(EN_XML@) is Ok && bundle_of_xml(RU_XML@) == Err::<
                    Map<Seq<char>, Seq<char>>,
                    LoadError,
                >(e)),
            },
    {
        match LocalizationBundle::from_xml(EN_XML) {
            Err(e) => Err(e),
            Ok(_) => match LocalizationBundle::from_xml(RU_XML) {
                Err(e) => Err(e),
                Ok(_) => Ok(Self::new()),
            },
        }
    }

    /// Switches the language in use.
    pub fn set_language(&mut self, lang: Language)
        ensures
            final(self).language() == lang,
            forall|l: Language| #[trigger] final(self).translations(l) == old(self).translations(
                l,
            ),
    {
        self.current_language = lang;
    }

    /// The language in use.
    pub fn current_language(&self) -> (r: Language)
        ensures
            r == self.language(),
    {
        self.current_language
    }

    /// The text for `key` in the language in use, falling back to English
    /// and then to the key itself.
    pub fn t(&self, key: &str) -> (r: String)
        ensures
            r@ == translation(
                self.translations(self.language()),
                self.translations(Language::En),
                key@,
            ),
    {
        let current = match self.current_language {
            Language::En => &self.en,
            Language::Ru => &self.ru,
        };
        if let Some(val) = current.get(key) {
            return val.to_owned();
        }
        if let Some(val) = self.en.get(key) {
            return val.to_owned();
        }
        key.to_owned()
    }

    /// The translations of `lang`; every language has them.
    pub fn bundle_for(&self, lang: Language) -> (r: Option<&LocalizationBundle>)
        ensures
            r matches Some(b) && b@ == self.translations(lang),
    {
        match lang {
            Language::En => Some(&self.en),
            Language::Ru => Some(&self.ru),
        }
    }
}

} // verus!
