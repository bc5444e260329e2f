//! The locale codes a schema may name.
//!
//! `defaultLocale` selects the flavour of realistic values.  An unknown code
//! falls back to English.

use vstd::prelude::*;
use crate::value::str_eq;

verus! {

/// The locales the value catalog knows.
#[derive(Debug, Clone, Copy, PartialEq, Eq, Structural)]
pub enum LocalesKeys {
    En,
    FrFr,
    ItIt,
    JaJp,
    DeDe,
    PtBr,
    ArSa,
    CyGb,
}

/// The code of each locale.
pub open spec fn spec_locale_code(k: LocalesKeys) -> Seq<char> {
    match k {
        LocalesKeys::En => "EN"@,
        LocalesKeys::FrFr => "FR_FR"@,
        LocalesKeys::ItIt => "IT_IT"@,
        LocalesKeys::JaJp => "JA_JP"@,
        LocalesKeys::DeDe => "DE_DE"@,
        LocalesKeys::PtBr => "PT_BR"@,
        LocalesKeys::ArSa => "AR_SA"@,
        LocalesKeys::CyGb => "CY_GB"@,
    }
}

/// The locale a code names; anything unknown is English.
pub open spec fn spec_locale_of(code: Seq<char>) -> LocalesKeys {
    if code == "FR_FR"@ {
        LocalesKeys::FrFr
    } else if code == "IT_IT"@ {
        LocalesKeys::ItIt
    } else if code == "JA_JP"@ {
        LocalesKeys::JaJp
    } else if code == "DE_DE"@ {
        LocalesKeys::DeDe
    } else if code == "PT_BR"@ {
        LocalesKeys::PtBr
    } else if code == "AR_SA"@ {
        LocalesKeys::ArSa
    } else if code == "CY_GB"@ {
        LocalesKeys::CyGb
    } else {
        LocalesKeys::En
    }
}

impl LocalesKeys {
    /// The code of this locale.
    pub fn code(self) -> (r: &'static str)
        ensures
            r@ == spec_locale_code(self),
    {
        match self {
            LocalesKeys::En => "EN",
            LocalesKeys::FrFr => "FR_FR",
            LocalesKeys::ItIt => "IT_IT",
            LocalesKeys::JaJp => "JA_JP",
            LocalesKeys::DeDe => "DE_DE",
            LocalesKeys::PtBr => "PT_BR",
            LocalesKeys::ArSa => "AR_SA",
            LocalesKeys::CyGb => "CY_GB",
        }
    }

    /// The locale a code names; anything unknown is English.
    pub fn from_code(code: &str) -> (r: LocalesKeys)
        ensures
            r == spec_locale_of(code@),
    {
        if str_eq(code, "FR_FR") {
            LocalesKeys::FrFr
        } else if str_eq(code, "IT_IT") {
            LocalesKeys::ItIt
        } else if str_eq(code, "JA_JP") {
            LocalesKeys::JaJp
        } else if str_eq(code, "DE_DE") {
            LocalesKeys::DeDe
        } else if str_eq(code, "PT_BR") {
            LocalesKeys::PtBr
        } else if str_eq(code, "AR_SA") {
            LocalesKeys::ArSa
        } else if str_eq(code, "CY_GB") {
            LocalesKeys::CyGb
        } else {
            LocalesKeys::En
        }
    }
}

} // verus!
