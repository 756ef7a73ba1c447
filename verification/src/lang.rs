//! Language selection for human-rendered output.
//!
//! Norwegian is the default; Swedish is supported via a config flag. The
//! brand name "Grusindeks" stays untranslated.
use vstd::prelude::*;

verus! {

#[derive(Debug, Clone, Copy, PartialEq, Eq, Hash, Structural)]
pub enum Language {
    Norwegian,
    Swedish,
}

impl Default for Language {
    fn default() -> (lang: Self)
        ensures
            lang == Language::Norwegian,
    {
        Language::Norwegian
    }
}

} // verus!
