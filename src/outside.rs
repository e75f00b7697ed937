use vstd::prelude::*;

verus! {

/// What the string literal token written `text` denotes, if it is one.
pub uninterp spec fn str_lit_value(text: Seq<char>) -> Option<Seq<char>>;

/// Whether `text` is an identifier that is not a keyword of the language.
pub uninterp spec fn plain_ident(text: Seq<char>) -> bool;

/// Relies on `syn::parse_str::<syn::LitStr>` and `syn::LitStr::value`: whether the
/// text is exactly one string literal, and the string it denotes.
#[verifier::external_body]
pub(crate) fn lit_str_value(text: &str) -> (r: Option<String>)
    ensures
        r.is_none() == str_lit_value(text@).is_none(),
        r matches Some(v) ==> str_lit_value(text@) == Some(v@),
{
    match syn::parse_str::<syn::LitStr>(text) {
        Ok(l) => Some(l.value()),
        Err(_) => None,
    }
}

/// Relies on `syn::parse_str::<syn::Ident>`: whether the text is one identifier
/// that is not a reserved keyword.
#[verifier::external_body]
pub(crate) fn ident_accepted(text: &str) -> (r: bool)
    ensures
        r == plain_ident(text@),
{
    syn::parse_str::<syn::Ident>(text).is_ok()
}

/// Relies on `String::push`: appends one character.
#[verifier::external_body]
pub(crate) fn push_char(s: &mut String, c: char)
    ensures
        final(s)@ == old(s)@.push(c),
{
    s.push(c)
}

} // verus!
