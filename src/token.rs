use vstd::prelude::*;
use crate::outside::push_char;

verus! {

/// Delimiter of a token group.
#[derive(Clone, Copy, Debug, PartialEq, Eq, Structural)]
pub enum Delim {
    Paren,
    Bracket,
    Brace,
    Invisible,
}

/// One token of a declaration, as the host toolchain hands it over.
#[derive(Clone, Debug)]
pub enum Tok {
    /// An identifier or keyword, as written (`pub`, `const`, `BUILD_ID`, `r#x`).
    Ident(String),
    /// A punctuation character; `joint` is set when the next character belongs
    /// to the same operator (the first `:` of `::`).
    Punct(char, bool),
    /// A literal token as written, quotes and escapes included (`"12345"`).
    Lit(String),
    /// A delimited group and the text of the tokens inside it.
    Group(Delim, String),
}

/// The mathematical value of a token.
pub enum TokV {
    Ident(Seq<char>),
    Punct(char, bool),
    Lit(Seq<char>),
    Group(Delim, Seq<char>),
}

impl View for Tok {
    type V = TokV;

    open spec fn view(&self) -> TokV {
        match self {
            Tok::Ident(s) => TokV::Ident(s@),
            Tok::Punct(c, j) => TokV::Punct(*c, *j),
            Tok::Lit(s) => TokV::Lit(s@),
            Tok::Group(d, s) => TokV::Group(*d, s@),
        }
    }
}

/// The values of a token sequence.
pub open spec fn toks_view(t: Seq<Tok>) -> Seq<TokV> {
    t.map_values(|x: Tok| x@)
}

/// Whether `t` is the identifier `w`.
pub open spec fn is_word(t: TokV, w: Seq<char>) -> bool {
    t matches TokV::Ident(s) && s == w
}

/// Whether `t` is the punctuation character `c`, joint or not.
pub open spec fn is_punct(t: TokV, c: char) -> bool {
    t matches TokV::Punct(p, _) && p == c
}

/// Character-wise equality of two strings.
pub fn text_is(s: &str, w: &str) -> (r: bool)
    ensures
        r == (s@ == w@),
{
    let n = s.unicode_len();
    if n != w.unicode_len() {
        return false;
    }
    let mut i: usize = 0;
    while i < n
        invariant
            n == s@.len(),
            n == w@.len(),
            i <= n,
            s@.subrange(0, i as int) == w@.subrange(0, i as int),
        decreases n - i,
    {
        if s.get_char(i) != w.get_char(i) {
            return false;
        }
        assert(s@.subrange(0, i + 1) == s@.subrange(0, i as int).push(s@[i as int]));
        assert(w@.subrange(0, i + 1) == w@.subrange(0, i as int).push(w@[i as int]));
        i = i + 1;
    }
    assert(s@ == s@.subrange(0, n as int));
    assert(w@ == w@.subrange(0, n as int));
    true
}

/// Whether `t` is the identifier `w`.
pub fn tok_is_word(t: &Tok, w: &str) -> (r: bool)
    ensures
        r == is_word(t@, w@),
{
    match t {
        Tok::Ident(s) => text_is(s.as_str(), w),
        _ => false,
    }
}

/// Whether `t` is the punctuation character `c`.
pub fn tok_is_punct(t: &Tok, c: char) -> (r: bool)
    ensures
        r == is_punct(t@, c),
{
    match t {
        Tok::Punct(p, _) => *p == c,
        _ => false,
    }
}

/// The opening and closing characters of a delimiter.
pub open spec fn delim_chars(d: Delim) -> (Seq<char>, Seq<char>) {
    match d {
        Delim::Paren => (seq!['('], seq![')']),
        Delim::Bracket => (seq!['['], seq![']']),
        Delim::Brace => (seq!['{'], seq!['}']),
        Delim::Invisible => (Seq::empty(), Seq::empty()),
    }
}

/// The source text of one token.
pub open spec fn tok_src(t: TokV) -> Seq<char> {
    match t {
        TokV::Ident(s) => s,
        TokV::Punct(c, _) => seq![c],
        TokV::Lit(s) => s,
        TokV::Group(d, s) => delim_chars(d).0 + s + delim_chars(d).1,
    }
}

/// What stands between token `t` and the next one: nothing after a joint
/// punctuation character, else one space.
pub open spec fn gap_after(t: TokV) -> Seq<char> {
    if t matches TokV::Punct(_, true) {
        Seq::empty()
    } else {
        seq![' ']
    }
}

/// The source text of a token sequence.
pub open spec fn toks_src(t: Seq<TokV>) -> Seq<char>
    decreases t.len(),
{
    if t.len() == 0 {
        Seq::empty()
    } else if t.len() == 1 {
        tok_src(t[0])
    } else {
        toks_src(t.drop_last()) + gap_after(t[t.len() - 2]) + tok_src(t.last())
    }
}

fn append_tok(out: &mut String, t: &Tok)
    ensures
        final(out)@ == old(out)@ + tok_src(t@),
{
    match t {
        Tok::Ident(s) => out.append(s.as_str()),
        Tok::Punct(c, _) => push_char(out, *c),
        Tok::Lit(s) => out.append(s.as_str()),
        Tok::Group(d, s) => {
            match d {
                Delim::Paren => push_char(out, '('),
                Delim::Bracket => push_char(out, '['),
                Delim::Brace => push_char(out, '{'),
                Delim::Invisible => {},
            }
            out.append(s.as_str());
            match d {
                Delim::Paren => push_char(out, ')'),
                Delim::Bracket => push_char(out, ']'),
                Delim::Brace => push_char(out, '}'),
                Delim::Invisible => {},
            }
            assert(final(out)@ =~= old(out)@ + tok_src(t@));
        },
    }
}

/// Writes a token sequence as source text.
pub fn render_text(toks: &Vec<Tok>) -> (r: String)
    ensures
        r@ == toks_src(toks_view(toks@)),
{
    let ghost t = toks_view(toks@);
    let mut out = String::new();
    let n = toks.len();
    let mut i: usize = 0;
    while i < n
        invariant
            n == toks@.len(),
            t == toks_view(toks@),
            i <= n,
            out@ == toks_src(t.subrange(0, i as int)),
        decreases n - i,
    {
        let ghost pre = t.subrange(0, i as int);
        let ghost next = t.subrange(0, i + 1);
        assert(next.drop_last() =~= pre);
        if i > 0 {
            match &toks[i - 1] {
                Tok::Punct(_, true) => {},
                _ => push_char(&mut out, ' '),
            }
        }
        append_tok(&mut out, &toks[i]);
        proof {
            if i == 0 {
                assert(out@ =~= toks_src(next));
            } else {
                assert(out@ =~= toks_src(next));
            }
        }
        i = i + 1;
    }
    assert(t.subrange(0, n as int) =~= t);
    out
}

} // verus!
