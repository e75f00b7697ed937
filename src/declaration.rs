use vstd::prelude::*;
use crate::diagnostic::{Diagnostic, ErrorKind};
use crate::outside::{ident_accepted, lit_str_value, plain_ident, str_lit_value};
use crate::token::{is_punct, is_word, text_is, tok_is_punct, tok_is_word, toks_view, Delim, Tok, TokV};

verus! {

/// A parsed declaration `VIS? const NAME: TYPE = "SPEC";`.
#[derive(Debug)]
pub struct Declaration {
    /// The visibility tokens, passed through unchanged (possibly none).
    pub visibility: Vec<Tok>,
    pub name: String,
    pub ty_name: String,
    /// Index of the type token in the input.
    pub type_loc: usize,
    /// The string that the source specifier literal denotes.
    pub specifier: String,
    /// Index of the source specifier token in the input.
    pub specifier_loc: usize,
}

/// Whether `t` is the parenthesised part of `pub(crate)`, `pub(self)`,
/// `pub(super)` or `pub(in path)`.
pub open spec fn is_vis_scope(t: TokV) -> bool {
    t matches TokV::Group(d, s) && d == Delim::Paren && (s == "crate"@ || s == "self"@
        || s == "super"@ || (s.len() > 3 && s.subrange(0, 3) == "in "@))
}

/// How many tokens the visibility takes at the start of `t`.
pub open spec fn vis_len(t: Seq<TokV>) -> int {
    if t.len() > 0 && is_word(t[0], "pub"@) {
        if t.len() > 1 && is_vis_scope(t[1]) {
            2
        } else {
            1
        }
    } else {
        0
    }
}

/// Whether `t` may stand at place `k` of `const NAME : TYPE = "SPEC" ;`.
pub open spec fn fits_slot(t: TokV, k: int) -> bool {
    if k == 0 {
        is_word(t, "const"@)
    } else if k == 1 {
        t matches TokV::Ident(s) && plain_ident(s)
    } else if k == 2 {
        is_punct(t, ':')
    } else if k == 3 {
        t is Ident
    } else if k == 4 {
        is_punct(t, '=')
    } else if k == 5 {
        t matches TokV::Lit(s) && str_lit_value(s) is Some
    } else {
        is_punct(t, ';')
    }
}

/// Whether position `i` of `t` is as the shape wants it: a fitting token
/// within the shape, and nothing from the place after its end.
pub open spec fn fits_at(t: Seq<TokV>, i: int) -> bool {
    let v = vis_len(t);
    if i < v + 7 {
        i < t.len() && fits_slot(t[i], i - v)
    } else {
        t.len() <= i
    }
}

/// Whether `t` is a declaration.
pub open spec fn well_formed(t: Seq<TokV>) -> bool {
    forall|i: int| vis_len(t) <= i <= vis_len(t) + 7 ==> fits_at(t, i)
}

/// Whether `p` is the first position at which `t` breaks the shape.
pub open spec fn first_misfit(t: Seq<TokV>, p: int) -> bool {
    &&& vis_len(t) <= p <= vis_len(t) + 7
    &&& !fits_at(t, p)
    &&& forall|i: int| vis_len(t) <= i < p ==> fits_at(t, i)
}

/// The text of an identifier or literal token.
pub open spec fn tok_text(t: TokV) -> Seq<char> {
    match t {
        TokV::Ident(s) => s,
        TokV::Lit(s) => s,
        _ => Seq::empty(),
    }
}

/// What a well-formed declaration `t` holds, by field.
pub open spec fn parsed_as(t: Seq<TokV>, d: Declaration) -> bool {
    let v = vis_len(t);
    &&& toks_view(d.visibility@) == t.subrange(0, v)
    &&& d.name@ == tok_text(t[v + 1])
    &&& d.ty_name@ == tok_text(t[v + 3])
    &&& d.type_loc == v + 3
    &&& Some(d.specifier@) == str_lit_value(tok_text(t[v + 5]))
    &&& d.specifier_loc == v + 5
}

/// A copy of a token with the same value.
pub fn copy_tok(t: &Tok) -> (r: Tok)
    ensures
        r@ == t@,
{
    match t {
        Tok::Ident(s) => Tok::Ident(s.clone()),
        Tok::Punct(c, j) => Tok::Punct(*c, *j),
        Tok::Lit(s) => Tok::Lit(s.clone()),
        Tok::Group(d, s) => Tok::Group(*d, s.clone()),
    }
}

fn is_vis_scope_tok(t: &Tok) -> (r: bool)
    ensures
        r == is_vis_scope(t@),
{
    match t {
        Tok::Group(Delim::Paren, s) => {
            let s = s.as_str();
            if text_is(s, "crate") || text_is(s, "self") || text_is(s, "super") {
                return true;
            }
            let n = s.unicode_len();
            if n > 3 {
                let head = s.substring_char(0, 3);
                text_is(head, "in ")
            } else {
                false
            }
        },
        _ => false,
    }
}

/// Whether token `t` may stand at place `k` of the shape.
fn tok_fits_slot(t: &Tok, k: usize) -> (r: bool)
    requires
        k < 7,
    ensures
        r == fits_slot(t@, k as int),
{
    if k == 0 {
        tok_is_word(t, "const")
    } else if k == 1 {
        match t {
            Tok::Ident(s) => ident_accepted(s.as_str()),
            _ => false,
        }
    } else if k == 2 {
        tok_is_punct(t, ':')
    } else if k == 3 {
        matches!(t, Tok::Ident(_))
    } else if k == 4 {
        tok_is_punct(t, '=')
    } else if k == 5 {
        match t {
            Tok::Lit(s) => lit_str_value(s.as_str()).is_some(),
            _ => false,
        }
    } else {
        tok_is_punct(t, ';')
    }
}

fn syntax_error(loc: usize) -> (r: Diagnostic)
    ensures
        r.kind == ErrorKind::Syntax,
        r.loc == loc,
        r.detail@ == Seq::<char>::empty(),
{
    Diagnostic { kind: ErrorKind::Syntax, loc, detail: String::new() }
}

/// Parses the whole input as one declaration, or locates the first token that
/// breaks its shape.
pub fn parse_declaration(input: &Vec<Tok>) -> (r: Result<Declaration, Diagnostic>)
    requires
        input.len() + 8 < usize::MAX,
    ensures
        r is Ok <==> well_formed(toks_view(input@)),
        r matches Ok(d) ==> parsed_as(toks_view(input@), d),
        r matches Err(e) ==> e.kind == ErrorKind::Syntax && first_misfit(
            toks_view(input@),
            e.loc as int,
        ) && e.detail@ == Seq::<char>::empty(),
{
    let ghost t = toks_view(input@);
    let n = input.len();
    assert(t.len() == n);
    assert(forall|i: int| 0 <= i < n ==> t[i] == input@[i]@);
    let v: usize = if n > 0 && tok_is_word(&input[0], "pub") {
        if n > 1 && is_vis_scope_tok(&input[1]) {
            2
        } else {
            1
        }
    } else {
        0
    };
    assert(v == vis_len(t));
    let mut k: usize = 0;
    while k < 7
        invariant
            t == toks_view(input@),
            n == input.len(),
            n + 8 < usize::MAX,
            v == vis_len(t),
            v <= 2,
            k <= 7,
            t.len() == n,
            forall|i: int| 0 <= i < n ==> t[i] == input@[i]@,
            forall|i: int| v <= i < v + k ==> fits_at(t, i),
        decreases 7 - k,
    {
        if v + k >= n || !tok_fits_slot(&input[v + k], k) {
            assert(!fits_at(t, v + k));
            return Err(syntax_error(v + k));
        }
        k = k + 1;
    }
    if n > v + 7 {
        assert(!fits_at(t, v + 7));
        return Err(syntax_error(v + 7));
    }
    assert(fits_at(t, v + 1) && fits_at(t, v + 3) && fits_at(t, v + 5) && fits_at(t, v + 6));
    assert(fits_at(t, v + 7));
    let mut visibility: Vec<Tok> = Vec::new();
    let mut i: usize = 0;
    while i < v
        invariant
            t == toks_view(input@),
            v <= 2,
            v + 7 <= input.len(),
            t.len() == input.len(),
            forall|i: int| 0 <= i < input.len() ==> t[i] == input@[i]@,
            i <= v,
            toks_view(visibility@) == t.subrange(0, i as int),
        decreases v - i,
    {
        let x = copy_tok(&input[i]);
        let ghost before = visibility@;
        visibility.push(x);
        assert(visibility@ == before.push(x));
        assert(toks_view(visibility@) =~= toks_view(before).push(x@));
        assert(t.subrange(0, i + 1) =~= t.subrange(0, i as int).push(t[i as int]));
        i = i + 1;
    }
    let name = match &input[v + 1] {
        Tok::Ident(s) => s.clone(),
        _ => String::new(),
    };
    let ty_name = match &input[v + 3] {
        Tok::Ident(s) => s.clone(),
        _ => String::new(),
    };
    let specifier = match &input[v + 5] {
        Tok::Lit(s) => match lit_str_value(s.as_str()) {
            Some(x) => x,
            None => String::new(),
        },
        _ => String::new(),
    };
    Ok(Declaration { visibility, name, ty_name, type_loc: v + 3, specifier, specifier_loc: v + 5 })
}

} // verus!
