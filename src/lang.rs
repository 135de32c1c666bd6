//! Languages of the menus, and the menu texts in each.
use vstd::prelude::*;
use vstd::string::StrSliceExecFns;

verus! {

/// The language chosen for the interface, as its code.
#[derive(Default, Debug)]
pub struct ActLang {
    language: String,
}

impl View for ActLang {
    type V = Seq<char>;

    closed spec fn view(&self) -> Seq<char> {
        self.language@
    }
}

impl ActLang {
    pub fn lang(&self) -> (r: &str)
        ensures
            r@ == self@,
    {
        self.language.as_str()
    }

    pub fn lang_mut(&mut self) -> (r: &mut String)
        ensures
            r@ == old(self)@,
            final(self)@ == final(r)@,
    {
        &mut self.language
    }
}

#[derive(Clone, Copy, Debug, PartialEq, Eq, Structural)]
pub enum Locale {
    English,
    Portuguese,
}

/// The locale a language code names: Portuguese for a code that starts
/// with "pt", English for any other.
pub open spec fn locale_of(code: Seq<char>) -> Locale {
    if code.len() >= 2 && code[0] == 'p' && code[1] == 't' {
        Locale::Portuguese
    } else {
        Locale::English
    }
}

impl Locale {
    pub fn from_string(string: &str) -> (r: Self)
        ensures
            r == locale_of(string@),
    {
        if string.unicode_len() >= 2 && string.get_char(0) == 'p' && string.get_char(1) == 't' {
            Locale::Portuguese
        } else {
            Locale::English
        }
    }

    pub fn to_string(&self) -> (r: &'static str)
        ensures
            r@ == match self {
                Locale::English => "en"@,
                Locale::Portuguese => "pt"@,
            },
    {
        match self {
            Locale::English => "en",
            Locale::Portuguese => "pt",
        }
    }
}

#[derive(Clone, Copy, Debug, PartialEq, Eq, Structural)]
pub enum Messages {
    MainMenuOpt1,
    MainMenuOpt2,
    MainMenuOpt3,
    SettingsOpt1,
    SettingsOpt2,
}

/// The text of a menu entry in a locale.
pub open spec fn text_of(m: Messages, locale: Locale) -> Seq<char> {
    match (m, locale) {
        (Messages::MainMenuOpt1, Locale::English) => "NEW GAME"@,
        (Messages::MainMenuOpt1, Locale::Portuguese) => "NOVO JOGO"@,
        (Messages::MainMenuOpt2, Locale::English) => "SETTINGS"@,
        (Messages::MainMenuOpt2, Locale::Portuguese) => "OPÇÕES"@,
        (Messages::MainMenuOpt3, Locale::English) => "EXIT"@,
        (Messages::MainMenuOpt3, Locale::Portuguese) => "SAIR"@,
        (Messages::SettingsOpt1, Locale::English) => "LANGUAGE"@,
        (Messages::SettingsOpt1, Locale::Portuguese) => "IDIOMA"@,
        (Messages::SettingsOpt2, Locale::English) => "BACK"@,
        (Messages::SettingsOpt2, Locale::Portuguese) => "VOLTAR"@,
    }
}

impl Messages {
    pub fn translate(&self, locale: &Locale) -> (r: String)
        ensures
            r@ == text_of(*self, *locale),
    {
        let text: &str = match (self, locale) {
            (Messages::MainMenuOpt1, Locale::English) => "NEW GAME",
            (Messages::MainMenuOpt1, Locale::Portuguese) => "NOVO JOGO",
            (Messages::MainMenuOpt2, Locale::English) => "SETTINGS",
            (Messages::MainMenuOpt2, Locale::Portuguese) => "OPÇÕES",
            (Messages::MainMenuOpt3, Locale::English) => "EXIT",
            (Messages::MainMenuOpt3, Locale::Portuguese) => "SAIR",
            (Messages::SettingsOpt1, Locale::English) => "LANGUAGE",
            (Messages::SettingsOpt1, Locale::Portuguese) => "IDIOMA",
            (Messages::SettingsOpt2, Locale::English) => "BACK",
            (Messages::SettingsOpt2, Locale::Portuguese) => "VOLTAR",
        };
        text.to_owned()
    }
}

} // verus!
