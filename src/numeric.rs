use vstd::prelude::*;
use crate::outside::push_char;
use crate::token::{text_is, toks_view, Tok, TokV};

verus! {

/// The supported primitive numeric types.
#[derive(Clone, Copy, Debug, PartialEq, Eq, Structural)]
pub enum NumType {
    I8,
    U8,
    I16,
    U16,
    I32,
    U32,
    I64,
    U64,
    F32,
    F64,
}

/// The type that the identifier `s` names, if it is a supported one.
pub open spec fn type_named(s: Seq<char>) -> Option<NumType> {
    if s == "i8"@ {
        Some(NumType::I8)
    } else if s == "u8"@ {
        Some(NumType::U8)
    } else if s == "i16"@ {
        Some(NumType::I16)
    } else if s == "u16"@ {
        Some(NumType::U16)
    } else if s == "i32"@ {
        Some(NumType::I32)
    } else if s == "u32"@ {
        Some(NumType::U32)
    } else if s == "i64"@ {
        Some(NumType::I64)
    } else if s == "u64"@ {
        Some(NumType::U64)
    } else if s == "f32"@ {
        Some(NumType::F32)
    } else if s == "f64"@ {
        Some(NumType::F64)
    } else {
        None
    }
}

/// Looks a type identifier up in the table of supported types (exact match).
pub fn num_type_named(s: &str) -> (r: Option<NumType>)
    ensures
        r == type_named(s@),
{
    if text_is(s, "i8") {
        Some(NumType::I8)
    } else if text_is(s, "u8") {
        Some(NumType::U8)
    } else if text_is(s, "i16") {
        Some(NumType::I16)
    } else if text_is(s, "u16") {
        Some(NumType::U16)
    } else if text_is(s, "i32") {
        Some(NumType::I32)
    } else if text_is(s, "u32") {
        Some(NumType::U32)
    } else if text_is(s, "i64") {
        Some(NumType::I64)
    } else if text_is(s, "u64") {
        Some(NumType::U64)
    } else if text_is(s, "f32") {
        Some(NumType::F32)
    } else if text_is(s, "f64") {
        Some(NumType::F64)
    } else {
        None
    }
}

pub open spec fn is_float(t: NumType) -> bool {
    t == NumType::F32 || t == NumType::F64
}

pub open spec fn is_signed(t: NumType) -> bool {
    t == NumType::I8 || t == NumType::I16 || t == NumType::I32 || t == NumType::I64
}

/// The least value of an integer type.
pub open spec fn min_of(t: NumType) -> int {
    match t {
        NumType::I8 => i8::MIN as int,
        NumType::I16 => i16::MIN as int,
        NumType::I32 => i32::MIN as int,
        NumType::I64 => i64::MIN as int,
        _ => 0,
    }
}

/// The greatest value of an integer type.
pub open spec fn max_of(t: NumType) -> int {
    match t {
        NumType::I8 => i8::MAX as int,
        NumType::U8 => u8::MAX as int,
        NumType::I16 => i16::MAX as int,
        NumType::U16 => u16::MAX as int,
        NumType::I32 => i32::MAX as int,
        NumType::U32 => u32::MAX as int,
        NumType::I64 => i64::MAX as int,
        _ => u64::MAX as int,
    }
}

pub open spec fn is_digit(c: char) -> bool {
    '0' <= c <= '9'
}

pub open spec fn all_digits(s: Seq<char>) -> bool {
    forall|i: int| 0 <= i < s.len() ==> is_digit(s[i])
}

/// The number that a string of decimal digits denotes.
pub open spec fn digits_value(s: Seq<char>) -> nat
    decreases s.len(),
{
    if s.len() == 0 {
        0
    } else {
        digits_value(s.drop_last()) * 10 + ((s.last() as u32) - 48) as nat
    }
}

/// The integer that `s` denotes under the integer parsing rules: an optional
/// `+` (or `-` where `signed`), then one or more decimal digits, nothing else.
pub open spec fn int_text(s: Seq<char>, signed: bool) -> Option<int> {
    let neg = signed && s.len() > 0 && s[0] == '-';
    let skip: int = if s.len() > 0 && (s[0] == '+' || neg) {
        1
    } else {
        0
    };
    let body = s.subrange(skip, s.len() as int);
    if body.len() > 0 && all_digits(body) {
        Some(
            if neg {
                -digits_value(body)
            } else {
                digits_value(body) as int
            },
        )
    } else {
        None
    }
}

/// The value of `s` as the integer type `t`, if it parses and is in range.
pub open spec fn int_value(t: NumType, s: Seq<char>) -> Option<int> {
    match int_text(s, is_signed(t)) {
        Some(n) => if min_of(t) <= n <= max_of(t) {
            Some(n)
        } else {
            None
        },
        None => None,
    }
}

/// A bound above every value of a supported integer type.
pub const DIGITS_CAP: u128 = 0x1_0000_0000_0000_0000;

/// Parses `s` as the integer type `t`.
pub fn parse_int(t: NumType, s: &str) -> (r: Option<i128>)
    requires
        !is_float(t),
    ensures
        r matches Some(n) ==> int_value(t, s@) == Some(n as int),
        r is None ==> int_value(t, s@) is None,
{
    let n = s.unicode_len();
    let signed = matches!(t, NumType::I8 | NumType::I16 | NumType::I32 | NumType::I64);
    let neg = signed && n > 0 && s.get_char(0) == '-';
    let skip: usize = if n > 0 && (s.get_char(0) == '+' || neg) {
        1
    } else {
        0
    };
    let ghost body = s@.subrange(skip as int, n as int);
    assert(signed == is_signed(t));
    assert(neg == (is_signed(t) && s@.len() > 0 && s@[0] == '-'));
    assert(skip == (if s@.len() > 0 && (s@[0] == '+' || neg) { 1int } else { 0 }));
    if skip >= n {
        return None;
    }
    let mut acc: u128 = 0;
    let mut i: usize = skip;
    while i < n
        invariant
            n == s@.len(),
            skip <= i <= n,
            neg == (is_signed(t) && s@.len() > 0 && s@[0] == '-'),
            skip == (if s@.len() > 0 && (s@[0] == '+' || neg) { 1int } else { 0 }),
            body == s@.subrange(skip as int, n as int),
            all_digits(s@.subrange(skip as int, i as int)),
            acc <= DIGITS_CAP,
            acc < DIGITS_CAP ==> acc == digits_value(s@.subrange(skip as int, i as int)),
            acc == DIGITS_CAP ==> digits_value(s@.subrange(skip as int, i as int)) >= DIGITS_CAP,
        decreases n - i,
    {
        let c = s.get_char(i);
        let ghost pre = s@.subrange(skip as int, i as int);
        let ghost next = s@.subrange(skip as int, i + 1);
        assert(next.drop_last() =~= pre);
        assert(next.last() == c);
        if !('0' <= c && c <= '9') {
            assert(body[i - skip] == c);
            assert(!is_digit(body[i - skip]));
            assert(!all_digits(body));
            return None;
        }
        if acc < DIGITS_CAP {
            let v = acc * 10 + ((c as u32) - 48) as u128;
            acc = if v >= DIGITS_CAP {
                DIGITS_CAP
            } else {
                v
            };
        }
        i = i + 1;
    }
    assert(s@.subrange(skip as int, n as int) == body);
    if acc == DIGITS_CAP {
        return None;
    }
    let v: i128 = if neg {
        -(acc as i128)
    } else {
        acc as i128
    };
    let (lo, hi): (i128, i128) = match t {
        NumType::I8 => (i8::MIN as i128, i8::MAX as i128),
        NumType::U8 => (0, u8::MAX as i128),
        NumType::I16 => (i16::MIN as i128, i16::MAX as i128),
        NumType::U16 => (0, u16::MAX as i128),
        NumType::I32 => (i32::MIN as i128, i32::MAX as i128),
        NumType::U32 => (0, u32::MAX as i128),
        NumType::I64 => (i64::MIN as i128, i64::MAX as i128),
        _ => (0, u64::MAX as i128),
    };
    if lo <= v && v <= hi {
        Some(v)
    } else {
        None
    }
}

/// Whether `a` equals the lower-case word `w` with ASCII case ignored.
pub open spec fn same_word_ci(a: Seq<char>, w: Seq<char>) -> bool {
    &&& a.len() == w.len()
    &&& forall|i: int| 0 <= i < a.len() ==> a[i] == w[i] || (a[i] as u32) + 32 == (w[i] as u32)
}

/// The end of the run of digits in `s` that starts at `i`.
pub open spec fn digit_run(s: Seq<char>, i: int) -> int
    decreases s.len() - i,
{
    if 0 <= i < s.len() && is_digit(s[i]) {
        digit_run(s, i + 1)
    } else {
        i
    }
}

/// Whether `r` is empty or an exponent `e` / `E`, an optional sign, and digits.
pub open spec fn exp_ok(r: Seq<char>) -> bool {
    r.len() == 0 || ((r[0] == 'e' || r[0] == 'E') && {
        let d: int = if r.len() > 1 && (r[1] == '+' || r[1] == '-') {
            2
        } else {
            1
        };
        r.len() > d && all_digits(r.subrange(d, r.len() as int))
    })
}

/// For an unsigned decimal number `b` (digits, an optional point, digits, an
/// optional exponent, with a digit on at least one side of the point), the same
/// number written with a digit on both sides of the point.
pub open spec fn finite_form(b: Seq<char>) -> Option<Seq<char>> {
    let w = digit_run(b, 0);
    let fs = if w < b.len() && b[w] == '.' {
        w + 1
    } else {
        w
    };
    let fe = digit_run(b, fs);
    let whole = b.subrange(0, w);
    let frac = b.subrange(fs, fe);
    let rest = b.subrange(fe, b.len() as int);
    if whole.len() + frac.len() > 0 && exp_ok(rest) {
        Some(
            (if whole.len() == 0 {
                "0"@
            } else {
                whole
            }) + "."@ + (if frac.len() == 0 {
                "0"@
            } else {
                frac
            }) + rest,
        )
    } else {
        None
    }
}

/// The form of a floating-point value.
#[derive(Debug)]
pub enum FloatForm {
    /// A finite number, as a decimal literal with digits on both sides of the point.
    Finite(String),
    Infinite,
    NaN,
}

/// A converted value: an integer, or a floating-point value as sign and form.
#[derive(Debug)]
pub enum Value {
    Int(i128),
    Float(bool, FloatForm),
}

pub enum FormV {
    Finite(Seq<char>),
    Infinite,
    NaN,
}

pub enum ValueV {
    Int(int),
    Float(bool, FormV),
}

impl View for Value {
    type V = ValueV;

    open spec fn view(&self) -> ValueV {
        match self {
            Value::Int(n) => ValueV::Int(*n as int),
            Value::Float(neg, FloatForm::Finite(s)) => ValueV::Float(*neg, FormV::Finite(s@)),
            Value::Float(neg, FloatForm::Infinite) => ValueV::Float(*neg, FormV::Infinite),
            Value::Float(neg, FloatForm::NaN) => ValueV::Float(*neg, FormV::NaN),
        }
    }
}

/// What `s` denotes under the floating-point parsing rules: an optional sign,
/// then `inf`, `infinity` or `nan` in any ASCII case, or a decimal number.
pub open spec fn float_text(s: Seq<char>) -> Option<ValueV> {
    let signed = s.len() > 0 && (s[0] == '+' || s[0] == '-');
    let neg = s.len() > 0 && s[0] == '-';
    let b = if signed {
        s.drop_first()
    } else {
        s
    };
    if same_word_ci(b, "inf"@) || same_word_ci(b, "infinity"@) {
        Some(ValueV::Float(neg, FormV::Infinite))
    } else if same_word_ci(b, "nan"@) {
        Some(ValueV::Float(neg, FormV::NaN))
    } else {
        match finite_form(b) {
            Some(f) => Some(ValueV::Float(neg, FormV::Finite(f))),
            None => None,
        }
    }
}

/// The value of `s` as type `t`, if `s` is accepted by the type's parser.
pub open spec fn converted(t: NumType, s: Seq<char>) -> Option<ValueV> {
    if is_float(t) {
        float_text(s)
    } else {
        match int_value(t, s) {
            Some(n) => Some(ValueV::Int(n)),
            None => None,
        }
    }
}

fn same_word_ci_exec(a: &str, w: &str) -> (r: bool)
    ensures
        r == same_word_ci(a@, w@),
{
    let n = a.unicode_len();
    if n != w.unicode_len() {
        return false;
    }
    let mut i: usize = 0;
    while i < n
        invariant
            n == a@.len(),
            n == w@.len(),
            i <= n,
            forall|j: int| 0 <= j < i ==> a@[j] == w@[j] || (a@[j] as u32) + 32 == (w@[j] as u32),
        decreases n - i,
    {
        let x = a.get_char(i);
        let y = w.get_char(i);
        if !(x == y || (x as u32) + 32 == (y as u32)) {
            return false;
        }
        i = i + 1;
    }
    true
}

fn digit_run_exec(s: &str, n: usize, i: usize) -> (r: usize)
    requires
        n == s@.len(),
        i <= n,
    ensures
        r == digit_run(s@, i as int),
        i <= r <= n,
{
    let mut j = i;
    while j < n
        invariant
            n == s@.len(),
            i <= j <= n,
            digit_run(s@, j as int) == digit_run(s@, i as int),
        decreases n - j,
    {
        let c = s.get_char(j);
        if !('0' <= c && c <= '9') {
            return j;
        }
        j = j + 1;
    }
    j
}

fn exp_ok_exec(r: &str) -> (ok: bool)
    ensures
        ok == exp_ok(r@),
{
    let n = r.unicode_len();
    if n == 0 {
        return true;
    }
    let c = r.get_char(0);
    if !(c == 'e' || c == 'E') {
        return false;
    }
    let d: usize = if n > 1 && (r.get_char(1) == '+' || r.get_char(1) == '-') {
        2
    } else {
        1
    };
    if n <= d {
        return false;
    }
    let e = digit_run_exec(r, n, d);
    proof {
        lemma_digit_run_digits(r@, d as int);
    }
    e == n
}

/// The run of digits from `i` holds digits only, and ends the string or at a
/// non-digit.
proof fn lemma_digit_run_digits(s: Seq<char>, i: int)
    requires
        0 <= i <= s.len(),
    ensures
        i <= digit_run(s, i) <= s.len(),
        all_digits(s.subrange(i, digit_run(s, i))),
        digit_run(s, i) < s.len() ==> !is_digit(s[digit_run(s, i)]),
        all_digits(s.subrange(i, s.len() as int)) ==> digit_run(s, i) == s.len(),
    decreases s.len() - i,
{
    if i < s.len() && is_digit(s[i]) {
        lemma_digit_run_digits(s, i + 1);
        assert forall|j: int| 0 <= j < digit_run(s, i) - i implies is_digit(
            #[trigger] s.subrange(i, digit_run(s, i))[j],
        ) by {
            if j > 0 {
                assert(s.subrange(i, digit_run(s, i))[j] == s.subrange(i + 1, digit_run(s, i))[j
                    - 1]);
            }
        }
        if all_digits(s.subrange(i, s.len() as int)) {
            assert forall|j: int| 0 <= j < s.len() - (i + 1) implies is_digit(
                #[trigger] s.subrange(i + 1, s.len() as int)[j],
            ) by {
                assert(s.subrange(i + 1, s.len() as int)[j] == s.subrange(i, s.len() as int)[j
                    + 1]);
            }
        }
    } else if i < s.len() {
        assert(s.subrange(i, s.len() as int)[0] == s[i]);
    }
}

/// Parses `s` under the floating-point parsing rules.
pub fn parse_float(s: &str) -> (r: Option<Value>)
    ensures
        r matches Some(v) ==> float_text(s@) == Some(v@),
        r is None ==> float_text(s@) is None,
{
    let n = s.unicode_len();
    let signed = n > 0 && (s.get_char(0) == '+' || s.get_char(0) == '-');
    let neg = n > 0 && s.get_char(0) == '-';
    let b: &str = if signed {
        s.substring_char(1, n)
    } else {
        s.substring_char(0, n)
    };
    assert(signed ==> b@ =~= s@.drop_first());
    assert(!signed ==> b@ =~= s@);
    if same_word_ci_exec(b, "inf") || same_word_ci_exec(b, "infinity") {
        return Some(Value::Float(neg, FloatForm::Infinite));
    }
    if same_word_ci_exec(b, "nan") {
        return Some(Value::Float(neg, FloatForm::NaN));
    }
    let m = b.unicode_len();
    let w = digit_run_exec(b, m, 0);
    let fs: usize = if w < m && b.get_char(w) == '.' {
        w + 1
    } else {
        w
    };
    let fe = digit_run_exec(b, m, fs);
    if w + (fe - fs) == 0 {
        return None;
    }
    let rest = b.substring_char(fe, m);
    if !exp_ok_exec(rest) {
        return None;
    }
    let mut out = if w == 0 {
        String::from_str("0")
    } else {
        String::from_str(b.substring_char(0, w))
    };
    out.append(".");
    if fe == fs {
        out.append("0");
    } else {
        out.append(b.substring_char(fs, fe));
    }
    out.append(rest);
    Some(Value::Float(neg, FloatForm::Finite(out)))
}

/// Converts the resolved string `s` to a value of type `t`, if `t`'s parser
/// accepts it.
pub fn convert(t: NumType, s: &str) -> (r: Option<Value>)
    ensures
        r matches Some(v) ==> converted(t, s@) == Some(v@),
        r is None ==> converted(t, s@) is None,
{
    match t {
        NumType::F32 | NumType::F64 => parse_float(s),
        _ => match parse_int(t, s) {
            Some(n) => Some(Value::Int(n)),
            None => None,
        },
    }
}

/// The identifier of a supported type.
pub open spec fn type_text(t: NumType) -> Seq<char> {
    match t {
        NumType::I8 => "i8"@,
        NumType::U8 => "u8"@,
        NumType::I16 => "i16"@,
        NumType::U16 => "u16"@,
        NumType::I32 => "i32"@,
        NumType::U32 => "u32"@,
        NumType::I64 => "i64"@,
        NumType::U64 => "u64"@,
        NumType::F32 => "f32"@,
        NumType::F64 => "f64"@,
    }
}

pub(crate) fn type_str(t: NumType) -> (r: &'static str)
    ensures
        r@ == type_text(t),
{
    match t {
        NumType::I8 => "i8",
        NumType::U8 => "u8",
        NumType::I16 => "i16",
        NumType::U16 => "u16",
        NumType::I32 => "i32",
        NumType::U32 => "u32",
        NumType::I64 => "i64",
        NumType::U64 => "u64",
        NumType::F32 => "f32",
        NumType::F64 => "f64",
    }
}

/// The decimal digit for `d`, for `0 <= d < 10`.
pub open spec fn digit_char(d: int) -> char {
    if d == 0 {
        '0'
    } else if d == 1 {
        '1'
    } else if d == 2 {
        '2'
    } else if d == 3 {
        '3'
    } else if d == 4 {
        '4'
    } else if d == 5 {
        '5'
    } else if d == 6 {
        '6'
    } else if d == 7 {
        '7'
    } else if d == 8 {
        '8'
    } else {
        '9'
    }
}

/// The decimal numeral of `n`, without leading zeros.
pub open spec fn dec(n: nat) -> Seq<char>
    decreases n,
{
    if n < 10 {
        seq![digit_char(n as int)]
    } else {
        dec(n / 10).push(digit_char((n % 10) as int))
    }
}

fn digit_char_exec(d: u128) -> (c: char)
    ensures
        c == digit_char(d as int),
{
    if d == 0 {
        '0'
    } else if d == 1 {
        '1'
    } else if d == 2 {
        '2'
    } else if d == 3 {
        '3'
    } else if d == 4 {
        '4'
    } else if d == 5 {
        '5'
    } else if d == 6 {
        '6'
    } else if d == 7 {
        '7'
    } else if d == 8 {
        '8'
    } else {
        '9'
    }
}

fn push_dec(n: u128, out: &mut String)
    ensures
        final(out)@ == old(out)@ + dec(n as nat),
    decreases n,
{
    if n >= 10 {
        push_dec(n / 10, out);
    }
    push_char(out, digit_char_exec(n % 10));
    assert(n < 10 ==> dec(n as nat) =~= seq![digit_char(n as int)]);
}

/// The tokens of the literal expression that denotes `v` as type `t`: a
/// decimal numeral, a decimal float literal, or the type's infinity or NaN
/// constant, with a leading `-` where the value is negative.
pub open spec fn value_toks(t: NumType, v: ValueV) -> Seq<TokV> {
    match v {
        ValueV::Int(n) => if n < 0 {
            seq![TokV::Punct('-', false), TokV::Lit(dec((-n) as nat))]
        } else {
            seq![TokV::Lit(dec(n as nat))]
        },
        ValueV::Float(neg, f) => (if neg {
            seq![TokV::Punct('-', false)]
        } else {
            Seq::empty()
        }) + match f {
            FormV::Finite(s) => seq![TokV::Lit(s)],
            FormV::Infinite => seq![
                TokV::Ident(type_text(t)),
                TokV::Punct(':', true),
                TokV::Punct(':', false),
                TokV::Ident("INFINITY"@),
            ],
            FormV::NaN => seq![
                TokV::Ident(type_text(t)),
                TokV::Punct(':', true),
                TokV::Punct(':', false),
                TokV::Ident("NAN"@),
            ],
        },
    }
}

/// Renders `v` as the tokens of a literal expression of type `t`.
pub fn render_value(t: NumType, v: &Value) -> (r: Vec<Tok>)
    ensures
        toks_view(r@) == value_toks(t, v@),
{
    let mut r: Vec<Tok> = Vec::new();
    match v {
        Value::Int(n) => {
            let mag: u128 = if *n < 0 {
                ((-(*n + 1)) as u128) + 1
            } else {
                *n as u128
            };
            let mut digits = String::new();
            push_dec(mag, &mut digits);
            if *n < 0 {
                r.push(Tok::Punct('-', false));
            }
            r.push(Tok::Lit(digits));
        },
        Value::Float(neg, f) => {
            if *neg {
                r.push(Tok::Punct('-', false));
            }
            match f {
                FloatForm::Finite(s) => r.push(Tok::Lit(s.clone())),
                FloatForm::Infinite => {
                    r.push(Tok::Ident(String::from_str(type_str(t))));
                    r.push(Tok::Punct(':', true));
                    r.push(Tok::Punct(':', false));
                    r.push(Tok::Ident(String::from_str("INFINITY")));
                },
                FloatForm::NaN => {
                    r.push(Tok::Ident(String::from_str(type_str(t))));
                    r.push(Tok::Punct(':', true));
                    r.push(Tok::Punct(':', false));
                    r.push(Tok::Ident(String::from_str("NAN")));
                },
            }
        },
    }
    assert(toks_view(r@) =~= value_toks(t, v@));
    r
}

} // verus!
