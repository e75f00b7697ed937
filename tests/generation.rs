use env_parse::diagnostic::{Diagnostic, ErrorKind};
use env_parse::generate::{env_parse, EnvSnapshot, Mode};
use env_parse::token::{render_text, Delim, Tok};

fn ident(s: &str) -> Tok {
    Tok::Ident(s.to_string())
}

fn punct(c: char) -> Tok {
    Tok::Punct(c, false)
}

fn lit(s: &str) -> Tok {
    Tok::Lit(s.to_string())
}

fn decl(vis: bool, name: &str, ty: &str, spec: &str) -> Vec<Tok> {
    let mut t = Vec::new();
    if vis {
        t.push(ident("pub"));
    }
    t.push(ident("const"));
    t.push(ident(name));
    t.push(punct(':'));
    t.push(ident(ty));
    t.push(punct('='));
    t.push(lit(&format!("\"{}\"", spec)));
    t.push(punct(';'));
    t
}

fn no_env() -> EnvSnapshot {
    EnvSnapshot { vars: Vec::new() }
}

fn env_of(pairs: &[(&str, &str)]) -> EnvSnapshot {
    EnvSnapshot { vars: pairs.iter().map(|(k, v)| (k.to_string(), v.to_string())).collect() }
}

fn literal(ty: &str, value: &str) -> Result<String, Diagnostic> {
    env_parse(&decl(false, "X", ty, value), Mode::Literal, &no_env()).map(|o| render_text(&o))
}

fn expect_err(r: Result<String, Diagnostic>, kind: ErrorKind, loc: usize, detail: &str) {
    match r {
        Ok(o) => panic!("expected an error, got {}", o),
        Err(d) => {
            assert_eq!(d.kind, kind);
            assert_eq!(d.loc, loc);
            assert_eq!(d.detail, detail);
        }
    }
}

#[test]
fn build_id_literal_mode() {
    let r = env_parse(&decl(true, "BUILD_ID", "u64", "12345"), Mode::Literal, &no_env()).unwrap();
    assert_eq!(render_text(&r), "pub const BUILD_ID : u64 = 12345 ;");
}

#[test]
fn port_from_environment() {
    let env = env_of(&[("SERVER_PORT", "8080")]);
    let r = env_parse(&decl(true, "PORT", "u16", "SERVER_PORT"), Mode::Environment, &env).unwrap();
    assert_eq!(render_text(&r), "pub const PORT : u16 = 8080 ;");
}

#[test]
fn port_unset_is_env_lookup_error() {
    let r = env_parse(&decl(true, "PORT", "u16", "SERVER_PORT"), Mode::Environment, &no_env());
    expect_err(r.map(|o| render_text(&o)), ErrorKind::EnvLookup, 6, "SERVER_PORT");
}

#[test]
fn u128_is_unsupported_type() {
    expect_err(literal("u128", "10"), ErrorKind::UnsupportedType, 3, "u128");
}

#[test]
fn not_a_number_is_value_parse_error() {
    expect_err(literal("i32", "not-a-number"), ErrorKind::ValueParse, 5, "not-a-number");
}

#[test]
fn literal_mode_each_type() {
    assert_eq!(literal("i8", "-128").unwrap(), "const X : i8 = - 128 ;");
    assert_eq!(literal("u8", "255").unwrap(), "const X : u8 = 255 ;");
    assert_eq!(literal("i16", "+300").unwrap(), "const X : i16 = 300 ;");
    assert_eq!(literal("u16", "65535").unwrap(), "const X : u16 = 65535 ;");
    assert_eq!(literal("i32", "-2147483648").unwrap(), "const X : i32 = - 2147483648 ;");
    assert_eq!(literal("u32", "007").unwrap(), "const X : u32 = 7 ;");
    assert_eq!(
        literal("i64", "-9223372036854775808").unwrap(),
        "const X : i64 = - 9223372036854775808 ;"
    );
    assert_eq!(
        literal("u64", "18446744073709551615").unwrap(),
        "const X : u64 = 18446744073709551615 ;"
    );
    assert_eq!(literal("f64", "1.5").unwrap(), "const X : f64 = 1.5 ;");
    assert_eq!(literal("f32", ".5e3").unwrap(), "const X : f32 = 0.5e3 ;");
    assert_eq!(literal("f64", "2").unwrap(), "const X : f64 = 2.0 ;");
    assert_eq!(literal("f64", "-3.E-2").unwrap(), "const X : f64 = - 3.0E-2 ;");
}

#[test]
fn float_specials() {
    assert_eq!(literal("f64", "inf").unwrap(), "const X : f64 = f64 :: INFINITY ;");
    assert_eq!(literal("f32", "-Infinity").unwrap(), "const X : f32 = - f32 :: INFINITY ;");
    assert_eq!(literal("f32", "NaN").unwrap(), "const X : f32 = f32 :: NAN ;");
}

#[test]
fn integer_rejections() {
    expect_err(literal("u8", "256"), ErrorKind::ValueParse, 5, "256");
    expect_err(literal("i8", "-129"), ErrorKind::ValueParse, 5, "-129");
    expect_err(literal("u32", "-0"), ErrorKind::ValueParse, 5, "-0");
    expect_err(literal("u32", ""), ErrorKind::ValueParse, 5, "");
    expect_err(literal("u32", "+"), ErrorKind::ValueParse, 5, "+");
    expect_err(literal("u32", " 1"), ErrorKind::ValueParse, 5, " 1");
    expect_err(literal("u32", "1_000"), ErrorKind::ValueParse, 5, "1_000");
    expect_err(literal("u64", "18446744073709551616"), ErrorKind::ValueParse, 5, "18446744073709551616");
    expect_err(literal("i64", "99999999999999999999999999"), ErrorKind::ValueParse, 5, "99999999999999999999999999");
    expect_err(literal("u32", "abc"), ErrorKind::ValueParse, 5, "abc");
}

#[test]
fn float_rejections() {
    expect_err(literal("f64", "."), ErrorKind::ValueParse, 5, ".");
    expect_err(literal("f64", "1e"), ErrorKind::ValueParse, 5, "1e");
    expect_err(literal("f64", "1.0f"), ErrorKind::ValueParse, 5, "1.0f");
    expect_err(literal("f32", "infinit"), ErrorKind::ValueParse, 5, "infinit");
    expect_err(literal("f32", ""), ErrorKind::ValueParse, 5, "");
}

#[test]
fn environment_mode_matches_literal_mode() {
    for (ty, value) in [("u16", "8080"), ("i8", "-5"), ("f64", "2.5e1"), ("u8", "300")] {
        let env = env_of(&[("V", value)]);
        let by_env = env_parse(&decl(false, "X", ty, "V"), Mode::Environment, &env).map(|o| render_text(&o));
        let by_lit = literal(ty, value);
        match (by_env, by_lit) {
            (Ok(a), Ok(b)) => assert_eq!(a, b),
            (Err(a), Err(b)) => {
                assert_eq!(a.kind, b.kind);
                assert_eq!(a.loc, b.loc);
                assert_eq!(a.detail, b.detail);
            }
            _ => panic!("modes disagree for {} {}", ty, value),
        }
    }
}

#[test]
fn generation_is_idempotent() {
    let env = env_of(&[("SERVER_PORT", "8080")]);
    let input = decl(true, "PORT", "u16", "SERVER_PORT");
    let a = render_text(&env_parse(&input, Mode::Environment, &env).unwrap());
    let b = render_text(&env_parse(&input, Mode::Environment, &env).unwrap());
    assert_eq!(a, b);
}

#[test]
fn env_lookup_takes_first_match() {
    let env = env_of(&[("A", "1"), ("V", "2"), ("V", "3")]);
    assert_eq!(env.lookup("V"), Some("2".to_string()));
    assert_eq!(env.lookup("W"), None);
}

#[test]
fn escaped_specifier_is_unescaped() {
    let mut input = decl(false, "X", "u32", "");
    input[5] = lit("\"1\\x32\"");
    let r = env_parse(&input, Mode::Literal, &no_env()).unwrap();
    assert_eq!(render_text(&r), "const X : u32 = 12 ;");
}

#[test]
fn unsupported_type_wins_only_after_resolution() {
    let r = env_parse(&decl(false, "X", "u128", "V"), Mode::Environment, &no_env());
    expect_err(r.map(|o| render_text(&o)), ErrorKind::EnvLookup, 5, "V");
}

#[test]
fn restricted_visibility_passes_through() {
    let mut input = vec![ident("pub"), Tok::Group(Delim::Paren, "crate".to_string())];
    input.extend(decl(false, "N", "u8", "4"));
    let r = env_parse(&input, Mode::Literal, &no_env()).unwrap();
    assert_eq!(render_text(&r), "pub (crate) const N : u8 = 4 ;");
}

#[test]
fn syntax_errors_are_located() {
    let syntax = |t: Vec<Tok>, loc: usize| {
        let r = env_parse(&t, Mode::Literal, &no_env()).map(|o| render_text(&o));
        expect_err(r, ErrorKind::Syntax, loc, "");
    };
    let good = decl(false, "X", "u8", "1");
    let mut missing_const = good.clone();
    missing_const[0] = ident("static");
    syntax(missing_const, 0);
    let mut keyword_name = good.clone();
    keyword_name[1] = ident("fn");
    syntax(keyword_name, 1);
    let mut no_colon = good.clone();
    no_colon[2] = punct('=');
    syntax(no_colon, 2);
    let mut number_value = good.clone();
    number_value[5] = lit("1");
    syntax(number_value, 5);
    let mut no_semicolon = good.clone();
    no_semicolon.pop();
    syntax(no_semicolon, 6);
    let mut trailing = good.clone();
    trailing.push(punct(';'));
    syntax(trailing, 7);
    syntax(Vec::new(), 0);
}

#[test]
fn messages_name_the_subject() {
    let d = Diagnostic { kind: ErrorKind::UnsupportedType, loc: 3, detail: "u128".to_string() };
    assert_eq!(d.message(), "unsupported type: u128");
    let e = Diagnostic { kind: ErrorKind::EnvLookup, loc: 5, detail: "V".to_string() };
    assert_eq!(e.message(), "couldn't find variable in environment: V");
}
