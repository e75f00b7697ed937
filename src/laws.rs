use vstd::prelude::*;
use crate::declaration::{fits_at, tok_text, vis_len, well_formed, first_misfit};
use crate::diagnostic::ErrorKind;
use crate::generate::{env_get, emitted, generation, outcome_of, resolved, specifier_of, Mode};
use crate::numeric::{converted, type_named, type_text, NumType};
use crate::outside::{plain_ident, str_lit_value};
use crate::token::{toks_view, TokV};

verus! {

/// The tokens of `const NAME: TYPE = LIT;`, where `lit` is the literal token's text.
pub open spec fn decl_toks(name: Seq<char>, ty: Seq<char>, lit: Seq<char>) -> Seq<TokV> {
    seq![
        TokV::Ident("const"@),
        TokV::Ident(name),
        TokV::Punct(':', false),
        TokV::Ident(ty),
        TokV::Punct('=', false),
        TokV::Lit(lit),
        TokV::Punct(';', false),
    ]
}

/// `const NAME: TYPE = LIT;` is a declaration when NAME is a plain identifier
/// and LIT a string literal, and its parts are where the shape puts them.
pub proof fn lemma_decl_shape(name: Seq<char>, ty: Seq<char>, lit: Seq<char>)
    requires
        plain_ident(name),
        str_lit_value(lit) is Some,
    ensures
        vis_len(decl_toks(name, ty, lit)) == 0,
        well_formed(decl_toks(name, ty, lit)),
        tok_text(decl_toks(name, ty, lit)[1]) == name,
        tok_text(decl_toks(name, ty, lit)[3]) == ty,
        Some(specifier_of(decl_toks(name, ty, lit))) == str_lit_value(lit),
        decl_toks(name, ty, lit).subrange(0, 0) == Seq::<TokV>::empty(),
{
    let t = decl_toks(name, ty, lit);
    reveal_strlit("const");
    reveal_strlit("pub");
    assert("const"@ =~= seq!['c', 'o', 'n', 's', 't']);
    assert("pub"@ =~= seq!['p', 'u', 'b']);
    assert("const"@[0] != "pub"@[0]);
    assert(vis_len(t) == 0);
    assert forall|i: int| 0 <= i <= 7 implies fits_at(t, i) by {
        if i == 0 {
            assert(t[0] == TokV::Ident("const"@));
        }
    }
    assert(t.subrange(0, 0) =~= Seq::<TokV>::empty());
}

/// Each supported type's identifier looks up that type.
pub proof fn lemma_type_text_named(t: NumType)
    ensures
        type_named(type_text(t)) == Some(t),
{
    reveal_strlit("i8");
    reveal_strlit("u8");
    reveal_strlit("i16");
    reveal_strlit("u16");
    reveal_strlit("i32");
    reveal_strlit("u32");
    reveal_strlit("i64");
    reveal_strlit("u64");
    reveal_strlit("f32");
    reveal_strlit("f64");
    assert("i8"@ =~= seq!['i', '8']);
    assert("u8"@ =~= seq!['u', '8']);
    assert("i16"@ =~= seq!['i', '1', '6']);
    assert("u16"@ =~= seq!['u', '1', '6']);
    assert("i32"@ =~= seq!['i', '3', '2']);
    assert("u32"@ =~= seq!['u', '3', '2']);
    assert("i64"@ =~= seq!['i', '6', '4']);
    assert("u64"@ =~= seq!['u', '6', '4']);
    assert("f32"@ =~= seq!['f', '3', '2']);
    assert("f64"@ =~= seq!['f', '6', '4']);
}

/// In literal mode, `const NAME: T = "s";` emits `const NAME: T = v;` where v is
/// `s` parsed as T, for every supported T and every `s` that T's parser accepts.
pub proof fn lemma_literal_mode_emits_parsed(
    name: Seq<char>,
    t: NumType,
    lit: Seq<char>,
    s: Seq<char>,
    env: Seq<(Seq<char>, Seq<char>)>,
)
    requires
        plain_ident(name),
        str_lit_value(lit) == Some(s),
        converted(t, s) is Some,
    ensures
        well_formed(decl_toks(name, type_text(t), lit)),
        generation(decl_toks(name, type_text(t), lit), Mode::Literal, env) == Ok::<
            Seq<TokV>,
            (ErrorKind, int, Seq<char>),
        >(emitted(Seq::empty(), name, t, converted(t, s)->Some_0)),
{
    lemma_decl_shape(name, type_text(t), lit);
    lemma_type_text_named(t);
}

/// In environment mode, with variable V set to `s`, `const NAME: TYPE = "V";`
/// gives the same as `const NAME: TYPE = "s";` in literal mode.
pub proof fn lemma_env_mode_as_literal(
    name: Seq<char>,
    ty: Seq<char>,
    var_lit: Seq<char>,
    var: Seq<char>,
    value_lit: Seq<char>,
    s: Seq<char>,
    env: Seq<(Seq<char>, Seq<char>)>,
)
    requires
        plain_ident(name),
        str_lit_value(var_lit) == Some(var),
        str_lit_value(value_lit) == Some(s),
        env_get(env, var) == Some(s),
    ensures
        generation(decl_toks(name, ty, var_lit), Mode::Environment, env) == generation(
            decl_toks(name, ty, value_lit),
            Mode::Literal,
            env,
        ),
{
    lemma_decl_shape(name, ty, var_lit);
    lemma_decl_shape(name, ty, value_lit);
}

/// In environment mode, with variable V unset, `const NAME: TYPE = "V";` fails
/// with an environment lookup error at the specifier token and emits nothing.
pub proof fn lemma_env_unset_fails(
    name: Seq<char>,
    ty: Seq<char>,
    var_lit: Seq<char>,
    var: Seq<char>,
    env: Seq<(Seq<char>, Seq<char>)>,
)
    requires
        plain_ident(name),
        str_lit_value(var_lit) == Some(var),
        env_get(env, var) is None,
    ensures
        generation(decl_toks(name, ty, var_lit), Mode::Environment, env) == Err::<
            Seq<TokV>,
            (ErrorKind, int, Seq<char>),
        >((ErrorKind::EnvLookup, 5, var)),
{
    lemma_decl_shape(name, ty, var_lit);
}

/// A type identifier outside the supported set fails with an unsupported type
/// error at the type token, once the specifier has resolved.
pub proof fn lemma_unsupported_type_fails(
    name: Seq<char>,
    ty: Seq<char>,
    lit: Seq<char>,
    mode: Mode,
    env: Seq<(Seq<char>, Seq<char>)>,
)
    requires
        plain_ident(name),
        str_lit_value(lit) is Some,
        type_named(ty) is None,
        resolved(mode, str_lit_value(lit)->Some_0, env) is Some,
    ensures
        generation(decl_toks(name, ty, lit), mode, env) == Err::<
            Seq<TokV>,
            (ErrorKind, int, Seq<char>),
        >((ErrorKind::UnsupportedType, 3, ty)),
{
    lemma_decl_shape(name, ty, lit);
}

/// A resolved string that the declared type's parser rejects fails with a
/// value parse error at the specifier token, carrying the string.
pub proof fn lemma_unparsable_value_fails(
    name: Seq<char>,
    t: NumType,
    lit: Seq<char>,
    s: Seq<char>,
    mode: Mode,
    env: Seq<(Seq<char>, Seq<char>)>,
)
    requires
        plain_ident(name),
        str_lit_value(lit) is Some,
        resolved(mode, str_lit_value(lit)->Some_0, env) == Some(s),
        converted(t, s) is None,
    ensures
        generation(decl_toks(name, type_text(t), lit), mode, env) == Err::<
            Seq<TokV>,
            (ErrorKind, int, Seq<char>),
        >((ErrorKind::ValueParse, 5, s)),
{
    lemma_decl_shape(name, type_text(t), lit);
    lemma_type_text_named(t);
}

/// Two generations on the same input and the same environment give the same
/// tokens, or the same failure.
pub proof fn lemma_generation_deterministic(
    t: Seq<TokV>,
    mode: Mode,
    env: Seq<(Seq<char>, Seq<char>)>,
    r1: Result<Vec<crate::token::Tok>, crate::diagnostic::Diagnostic>,
    r2: Result<Vec<crate::token::Tok>, crate::diagnostic::Diagnostic>,
)
    requires
        outcome_of(t, mode, env, r1),
        outcome_of(t, mode, env, r2),
    ensures
        r1 is Ok <==> r2 is Ok,
        r1 matches Ok(o1) ==> r2 matches Ok(o2) && toks_view(o1@) == toks_view(o2@),
        r1 matches Err(d1) ==> r2 matches Err(d2) && d1.kind == d2.kind && d1.loc == d2.loc
            && d1.detail@ == d2.detail@,
{
    if let (Err(d1), Err(d2)) = (r1, r2) {
        if !well_formed(t) {
            assert(first_misfit(t, d1.loc as int) && first_misfit(t, d2.loc as int));
            if d1.loc < d2.loc {
                assert(fits_at(t, d1.loc as int));
            } else if d2.loc < d1.loc {
                assert(fits_at(t, d2.loc as int));
            }
        }
    }
}

} // verus!
