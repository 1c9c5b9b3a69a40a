use vstd::prelude::*;

verus! {

/// The languages Joséphine can speak. English is the default.
#[derive(Debug, Clone, Copy, PartialEq, Eq, Structural)]
pub enum Lang {
    En,
    Fr,
}

impl Default for Lang {
    fn default() -> (r: Lang)
        ensures
            r == Lang::En,
    {
        Lang::En
    }
}

/// Choose between an English and a French text for the given language.
pub fn t<'a>(lang: Lang, en: &'a str, fr: &'a str) -> (r: &'a str)
    ensures
        r@ == (match lang {
            Lang::En => en@,
            Lang::Fr => fr@,
        }),
{
    match lang {
        Lang::En => en,
        Lang::Fr => fr,
    }
}

} // verus!
