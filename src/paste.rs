use vstd::prelude::*;

verus! {

/// A submitted paste: its text and a free-form language tag.
#[derive(Clone, Debug)]
pub struct Paste {
    pub text: String,
    pub lang: String,
}

/// The mathematical value of a paste.
pub ghost struct PasteModel {
    pub text: Seq<char>,
    pub lang: Seq<char>,
}

impl View for Paste {
    type V = PasteModel;

    open spec fn view(&self) -> PasteModel {
        PasteModel { text: self.text@, lang: self.lang@ }
    }
}

impl Paste {
    pub fn new(text: String, lang: String) -> (r: Paste)
        ensures
            r.text@ == text@,
            r.lang@ == lang@,
    {
        Paste { text, lang }
    }

    /// A copy of this paste with both fields cloned.
    pub fn duplicate(&self) -> (r: Paste)
        ensures
            r@ == self@,
    {
        Paste { text: self.text.clone(), lang: self.lang.clone() }
    }
}

/// Why a lookup failed.
#[derive(Clone, Copy, Debug, PartialEq, Eq, Structural)]
pub enum PasteError {
    /// No paste is stored under the identifier.
    NotFound,
}

} // verus!
