use crate::chars::lower_of;
use crate::chars::str_eq;
use crate::chars::to_lowercase;
use vstd::prelude::*;

verus! {

/// Where an expense happened. Unrecognized text lands in `Other`, so
/// classification is total and never fails.
#[derive(Debug, Default, PartialEq)]
pub enum Store {
    #[default]
    Magnit,
    Five,
    Lenta,
    Other(String),
}

/// Which store a lowercased token names: a fixed alias table with Latin and
/// Cyrillic spellings, and `Other` carrying the lowercased text itself.
pub open spec fn store_matches(t: Seq<char>, st: Store) -> bool {
    if t == "\u{43c}\u{430}\u{433}\u{43d}\u{438}\u{442}"@ || t == "magnit"@ {
        st matches Store::Magnit
    } else if t == "\u{43f}\u{44f}\u{442}\u{435}\u{440}\u{43e}\u{447}\u{43a}\u{430}"@ || t
        == "\u{43f}\u{44f}\u{442}\u{451}\u{440}\u{43e}\u{447}\u{43a}\u{430}"@ || t
        == "\u{43f}\u{44f}\u{442}\u{435}\u{440}\u{43a}\u{430}"@ || t
        == "\u{43f}\u{44f}\u{442}\u{451}\u{440}\u{43a}\u{430}"@ || t == "five"@ || t == "5ka"@ {
        st matches Store::Five
    } else if t == "\u{43b}\u{435}\u{43d}\u{442}\u{430}"@ || t == "lenta"@ {
        st matches Store::Lenta
    } else {
        st matches Store::Other(o) && o@ == t
    }
}

impl Store {
    /// Classify a token against the alias table, in any case; anything
    /// unrecognized becomes `Other` with the lowercased text.
    pub fn from_str(s: &str) -> (r: Result<Store, ()>)
        ensures
            r matches Ok(st) && store_matches(lower_of(s@), st),
    {
        let low = to_lowercase(s);
        if str_eq(low.as_str(), "\u{43c}\u{430}\u{433}\u{43d}\u{438}\u{442}") || str_eq(
            low.as_str(),
            "magnit",
        ) {
            Ok(Store::Magnit)
        } else if str_eq(low.as_str(), "\u{43f}\u{44f}\u{442}\u{435}\u{440}\u{43e}\u{447}\u{43a}\u{430}")
            || str_eq(low.as_str(), "\u{43f}\u{44f}\u{442}\u{451}\u{440}\u{43e}\u{447}\u{43a}\u{430}")
            || str_eq(low.as_str(), "\u{43f}\u{44f}\u{442}\u{435}\u{440}\u{43a}\u{430}")
            || str_eq(low.as_str(), "\u{43f}\u{44f}\u{442}\u{451}\u{440}\u{43a}\u{430}")
            || str_eq(low.as_str(), "five")
            || str_eq(low.as_str(), "5ka") {
            Ok(Store::Five)
        } else if str_eq(low.as_str(), "\u{43b}\u{435}\u{43d}\u{442}\u{430}") || str_eq(
            low.as_str(),
            "lenta",
        ) {
            Ok(Store::Lenta)
        } else {
            Ok(Store::Other(low))
        }
    }
}

} // verus!
