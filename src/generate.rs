use vstd::prelude::*;
use crate::declaration::{
    copy_tok, first_misfit, parse_declaration, tok_text, vis_len, well_formed, Declaration,
};
use crate::diagnostic::{Diagnostic, ErrorKind};
use crate::numeric::{
    convert, converted, num_type_named, render_value, type_named, type_str, type_text, value_toks,
    NumType, Value, ValueV,
};
use crate::outside::str_lit_value;
use crate::token::{text_is, toks_view, Tok, TokV};

verus! {

/// How the source specifier is resolved to the value string.
#[derive(Clone, Copy, Debug, PartialEq, Eq, Structural)]
pub enum Mode {
    /// The specifier's text is the value.
    Literal,
    /// The specifier's text names an environment variable whose value is used.
    Environment,
}

/// The state of the process environment, as name and value pairs.
#[derive(Debug)]
pub struct EnvSnapshot {
    pub vars: Vec<(String, String)>,
}

/// The pairs of an environment, as character sequences.
pub open spec fn env_view(vars: Seq<(String, String)>) -> Seq<(Seq<char>, Seq<char>)> {
    vars.map_values(|p: (String, String)| (p.0@, p.1@))
}

/// The value of the first pair of `vars` named `name`.
pub open spec fn env_get(vars: Seq<(Seq<char>, Seq<char>)>, name: Seq<char>) -> Option<Seq<char>>
    decreases vars.len(),
{
    if vars.len() == 0 {
        None
    } else if vars[0].0 == name {
        Some(vars[0].1)
    } else {
        env_get(vars.drop_first(), name)
    }
}

impl EnvSnapshot {
    /// The value of the variable `name`, if it is set.
    pub fn lookup(&self, name: &str) -> (r: Option<String>)
        ensures
            r matches Some(v) ==> env_get(env_view(self.vars@), name@) == Some(v@),
            r is None ==> env_get(env_view(self.vars@), name@) is None,
    {
        let ghost e = env_view(self.vars@);
        let n = self.vars.len();
        let mut i: usize = 0;
        assert(e.subrange(0, n as int) =~= e);
        while i < n
            invariant
                n == self.vars@.len(),
                e == env_view(self.vars@),
                i <= n,
                env_get(e, name@) == env_get(e.subrange(i as int, n as int), name@),
            decreases n - i,
        {
            let ghost rest = e.subrange(i as int, n as int);
            assert(rest.drop_first() =~= e.subrange(i + 1, n as int));
            assert(rest[0] == (self.vars@[i as int].0@, self.vars@[i as int].1@));
            if text_is(self.vars[i].0.as_str(), name) {
                return Some(self.vars[i].1.clone());
            }
            i = i + 1;
        }
        None
    }
}

/// The value string that the specifier `s` resolves to in `mode`.
pub open spec fn resolved(mode: Mode, s: Seq<char>, env: Seq<(Seq<char>, Seq<char>)>) -> Option<
    Seq<char>,
> {
    match mode {
        Mode::Literal => Some(s),
        Mode::Environment => env_get(env, s),
    }
}

/// The emitted declaration `vis const name: t = value;`.
pub open spec fn emitted(vis: Seq<TokV>, name: Seq<char>, t: NumType, v: ValueV) -> Seq<TokV> {
    vis + seq![
        TokV::Ident("const"@),
        TokV::Ident(name),
        TokV::Punct(':', false),
        TokV::Ident(type_text(t)),
        TokV::Punct('=', false),
    ] + value_toks(t, v) + seq![TokV::Punct(';', false)]
}

/// The string that the specifier literal of a well-formed declaration denotes.
pub open spec fn specifier_of(t: Seq<TokV>) -> Seq<char> {
    match str_lit_value(tok_text(t[vis_len(t) + 5])) {
        Some(s) => s,
        None => Seq::empty(),
    }
}

/// What generation gives for a well-formed declaration `t`: the emitted
/// tokens, or the first failure in the order resolution, type lookup,
/// conversion, as kind, token index and detail.
pub open spec fn generation(t: Seq<TokV>, mode: Mode, env: Seq<(Seq<char>, Seq<char>)>) -> Result<
    Seq<TokV>,
    (ErrorKind, int, Seq<char>),
> {
    let v = vis_len(t);
    let spec = specifier_of(t);
    match resolved(mode, spec, env) {
        None => Err((ErrorKind::EnvLookup, v + 5, spec)),
        Some(s) => match type_named(tok_text(t[v + 3])) {
            None => Err((ErrorKind::UnsupportedType, v + 3, tok_text(t[v + 3]))),
            Some(ty) => match converted(ty, s) {
                None => Err((ErrorKind::ValueParse, v + 5, s)),
                Some(x) => Ok(emitted(t.subrange(0, v), tok_text(t[v + 1]), ty, x)),
            },
        },
    }
}

/// Whether `r` is what generation owes on input `t`: a located syntax error
/// where `t` is not a declaration, else exactly `generation(t, mode, env)`.
pub open spec fn outcome_of(
    t: Seq<TokV>,
    mode: Mode,
    env: Seq<(Seq<char>, Seq<char>)>,
    r: Result<Vec<Tok>, Diagnostic>,
) -> bool {
    match r {
        Ok(o) => well_formed(t) && generation(t, mode, env) == Ok::<Seq<TokV>, (ErrorKind, int, Seq<char>)>(toks_view(o@)),
        Err(d) => if well_formed(t) {
            generation(t, mode, env) == Err::<Seq<TokV>, (ErrorKind, int, Seq<char>)>((d.kind, d.loc as int, d.detail@))
        } else {
            d.kind == ErrorKind::Syntax && first_misfit(t, d.loc as int) && d.detail@ == Seq::<
                char,
            >::empty()
        },
    }
}

/// The tokens of `vis const NAME: TYPE = value;` for a declaration `d`.
pub fn emit(d: &Declaration, t: NumType, v: &Value) -> (r: Vec<Tok>)
    ensures
        toks_view(r@) == emitted(toks_view(d.visibility@), d.name@, t, v@),
{
    let mut r: Vec<Tok> = Vec::new();
    let n = d.visibility.len();
    let mut i: usize = 0;
    while i < n
        invariant
            n == d.visibility@.len(),
            i <= n,
            toks_view(r@) == toks_view(d.visibility@).subrange(0, i as int),
        decreases n - i,
    {
        let x = copy_tok(&d.visibility[i]);
        let ghost before = r@;
        r.push(x);
        assert(toks_view(r@) =~= toks_view(before).push(x@));
        assert(toks_view(d.visibility@).subrange(0, i + 1) =~= toks_view(d.visibility@).subrange(
            0,
            i as int,
        ).push(toks_view(d.visibility@)[i as int]));
        i = i + 1;
    }
    assert(toks_view(d.visibility@).subrange(0, n as int) =~= toks_view(d.visibility@));
    r.push(Tok::Ident(String::from_str("const")));
    r.push(Tok::Ident(d.name.clone()));
    r.push(Tok::Punct(':', false));
    r.push(Tok::Ident(String::from_str(type_str(t))));
    r.push(Tok::Punct('=', false));
    let ghost head = r@;
    let mut value = render_value(t, v);
    let ghost vt = value@;
    r.append(&mut value);
    r.push(Tok::Punct(';', false));
    assert(r@ =~= head + vt + seq![Tok::Punct(';', false)]);
    assert(toks_view(r@) =~= emitted(toks_view(d.visibility@), d.name@, t, v@));
    r
}

/// Generates the constant declaration for the tokens `input`: parses it,
/// resolves the specifier in `mode` (looking it up in `env` in environment
/// mode), looks the type up, converts the value and emits the declaration, or
/// reports the first failure.
pub fn env_parse(input: &Vec<Tok>, mode: Mode, env: &EnvSnapshot) -> (r: Result<
    Vec<Tok>,
    Diagnostic,
>)
    requires
        input.len() + 8 < usize::MAX,
    ensures
        outcome_of(toks_view(input@), mode, env_view(env.vars@), r),
{
    let ghost t = toks_view(input@);
    let d = match parse_declaration(input) {
        Ok(d) => d,
        Err(e) => return Err(e),
    };
    let ghost v = vis_len(t);
    assert(d.visibility@.len() == v) by {
        assert(toks_view(d.visibility@).len() == d.visibility@.len());
    }
    let value: String = match mode {
        Mode::Literal => d.specifier.clone(),
        Mode::Environment => match env.lookup(d.specifier.as_str()) {
            Some(x) => x,
            None => {
                return Err(
                    Diagnostic {
                        kind: ErrorKind::EnvLookup,
                        loc: d.specifier_loc,
                        detail: d.specifier.clone(),
                    },
                );
            },
        },
    };
    let ty = match num_type_named(d.ty_name.as_str()) {
        Some(ty) => ty,
        None => {
            return Err(
                Diagnostic {
                    kind: ErrorKind::UnsupportedType,
                    loc: d.type_loc,
                    detail: d.ty_name.clone(),
                },
            );
        },
    };
    let x = match convert(ty, value.as_str()) {
        Some(x) => x,
        None => {
            return Err(Diagnostic { kind: ErrorKind::ValueParse, loc: d.specifier_loc, detail: value });
        },
    };
    Ok(emit(&d, ty, &x))
}

} // verus!
