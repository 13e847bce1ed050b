//! Literal values: the small value AST used for argument defaults and for
//! the argument values supplied with a field request, together with its
//! mathematical model and a canonical string rendering used by the schema
//! registry for introspection.

use vstd::prelude::*;

verus! {

/// A literal value: null, a scalar, an enum name, a list of literals or an
/// object whose fields hold literals.
#[derive(Debug, PartialEq, Eq)]
pub enum Literal {
    Null,
    Boolean(bool),
    Integer(i64),
    Text(String),
    EnumName(String),
    List(Vec<Literal>),
    Object(Vec<ObjectField>),
}

/// One field of an object literal.
#[derive(Debug, PartialEq, Eq)]
pub struct ObjectField {
    pub name: String,
    pub value: Literal,
}

/// The mathematical model of a [`Literal`].
pub enum LiteralModel {
    Null,
    Boolean(bool),
    Integer(int),
    Text(Seq<char>),
    EnumName(Seq<char>),
    List(Seq<LiteralModel>),
    Object(Seq<ObjectFieldModel>),
}

/// The mathematical model of an [`ObjectField`].
pub struct ObjectFieldModel {
    pub name: Seq<char>,
    pub value: LiteralModel,
}

pub open spec fn literal_model(v: Literal) -> LiteralModel
    decreases v,
{
    match v {
        Literal::Null => LiteralModel::Null,
        Literal::Boolean(b) => LiteralModel::Boolean(b),
        Literal::Integer(i) => LiteralModel::Integer(i as int),
        Literal::Text(s) => LiteralModel::Text(s@),
        Literal::EnumName(s) => LiteralModel::EnumName(s@),
        Literal::List(xs) => LiteralModel::List(
            Seq::new(
                xs@.len(),
                |i: int|
                    if 0 <= i < xs@.len() {
                        literal_model(xs@[i])
                    } else {
                        LiteralModel::Null
                    },
            ),
        ),
        Literal::Object(fs) => LiteralModel::Object(
            Seq::new(
                fs@.len(),
                |i: int|
                    if 0 <= i < fs@.len() {
                        ObjectFieldModel { name: fs@[i].name@, value: literal_model(fs@[i].value) }
                    } else {
                        ObjectFieldModel { name: Seq::empty(), value: LiteralModel::Null }
                    },
            ),
        ),
    }
}

impl View for Literal {
    type V = LiteralModel;

    open spec fn view(&self) -> LiteralModel {
        literal_model(*self)
    }
}

impl View for ObjectField {
    type V = ObjectFieldModel;

    open spec fn view(&self) -> ObjectFieldModel {
        ObjectFieldModel { name: self.name@, value: self.value@ }
    }
}

impl Clone for Literal {
    /// Cloning a literal keeps its model.
    fn clone(&self) -> (r: Literal)
        ensures
            r@ == self@,
        decreases self,
    {
        match self {
            Literal::Null => Literal::Null,
            Literal::Boolean(b) => Literal::Boolean(*b),
            Literal::Integer(i) => Literal::Integer(*i),
            Literal::Text(s) => Literal::Text(s.clone()),
            Literal::EnumName(s) => Literal::EnumName(s.clone()),
            Literal::List(xs) => {
                let mut ys: Vec<Literal> = Vec::new();
                let mut i: usize = 0;
                while i < xs.len()
                    invariant
                        self is List && self->List_0 == *xs,
                        i <= xs@.len(),
                        ys@.len() == i,
                        forall|j: int| 0 <= j < i ==> ys@[j]@ == xs@[j]@,
                    decreases xs@.len() - i,
                {
                    let e = xs[i].clone();
                    ys.push(e);
                    i = i + 1;
                }
                let r = Literal::List(ys);
                proof {
                    assert(r@->List_0 =~= (*self)@->List_0);
                }
                r
            },
            Literal::Object(fs) => {
                let mut gs: Vec<ObjectField> = Vec::new();
                let mut i: usize = 0;
                while i < fs.len()
                    invariant
                        self is Object && self->Object_0 == *fs,
                        i <= fs@.len(),
                        gs@.len() == i,
                        forall|j: int| 0 <= j < i ==> gs@[j]@ == fs@[j]@,
                    decreases fs@.len() - i,
                {
                    let e = fs[i].clone();
                    gs.push(e);
                    i = i + 1;
                }
                let r = Literal::Object(gs);
                proof {
                    assert(r@->Object_0 =~= (*self)@->Object_0);
                }
                r
            },
        }
    }
}

impl Clone for ObjectField {
    /// Cloning an object field keeps its model.
    fn clone(&self) -> (r: ObjectField)
        ensures
            r@ == self@,
        decreases self,
    {
        ObjectField { name: self.name.clone(), value: self.value.clone() }
    }
}

/// Relies on `String::push`: appends the character to the end of the string.
#[verifier::external_body]
fn push_char(s: &mut String, c: char)
    ensures
        final(s)@ == old(s)@.push(c),
{
    s.push(c)
}

pub open spec fn dec_digit(d: int) -> char {
    if d == 0 {
        '0'
    } else if d == 1 {
        '1'
    } else if d == 2 {
        '2'
    } else if d == 3 {
        '3'
    } else if d == 4 {
        '4'
    } else if d == 5 {
        '5'
    } else if d == 6 {
        '6'
    } else if d == 7 {
        '7'
    } else if d == 8 {
        '8'
    } else {
        '9'
    }
}

/// The decimal rendering of a natural number, most significant digit first.
pub open spec fn dec_chars(n: nat) -> Seq<char>
    decreases n,
{
    if n < 10 {
        seq![dec_digit(n as int)]
    } else {
        dec_chars(n / 10) + seq![dec_digit((n % 10) as int)]
    }
}

/// The decimal rendering of an integer: a minus sign for negative values,
/// then the digits of its magnitude.
pub open spec fn int_chars(i: int) -> Seq<char> {
    if i < 0 {
        seq!['-'] + dec_chars((-i) as nat)
    } else {
        dec_chars(i as nat)
    }
}

/// The escaping of one character inside a quoted string literal: a backslash
/// is written before a quote or a backslash, every other character stands as
/// it is.
pub open spec fn escaped_char(c: char) -> Seq<char> {
    if c == '"' || c == '\\' {
        seq!['\\', c]
    } else {
        seq![c]
    }
}

/// The escaping of the first `k` characters of `s`, concatenated.
pub open spec fn escaped_prefix(s: Seq<char>, k: int) -> Seq<char>
    decreases k,
{
    if k <= 0 {
        Seq::empty()
    } else {
        escaped_prefix(s, k - 1) + escaped_char(s[k - 1])
    }
}

/// The canonical string rendering of a literal, as it appears in the schema
/// registry's description of an argument default.
pub open spec fn literal_chars(m: LiteralModel) -> Seq<char>
    decreases m,
{
    match m {
        LiteralModel::Null => "null"@,
        LiteralModel::Boolean(b) => if b {
            "true"@
        } else {
            "false"@
        },
        LiteralModel::Integer(i) => int_chars(i),
        LiteralModel::Text(s) => seq!['"'] + escaped_prefix(s, s.len() as int) + seq!['"'],
        LiteralModel::EnumName(s) => s,
        LiteralModel::List(xs) => seq!['['] + joined_elements(xs, xs.len() as int) + seq![']'],
        LiteralModel::Object(fs) => seq!['{'] + joined_fields(fs, fs.len() as int) + seq!['}'],
    }
}

/// The renderings of the first `k` elements, separated by a comma and a
/// space.
pub open spec fn joined_elements(xs: Seq<LiteralModel>, k: int) -> Seq<char>
    decreases xs, k,
{
    if k <= 0 || k > xs.len() {
        Seq::empty()
    } else if k == 1 {
        literal_chars(xs[0])
    } else {
        joined_elements(xs, k - 1) + ", "@ + literal_chars(xs[k - 1])
    }
}

/// The renderings of the first `k` object fields, each a name, a colon and a
/// space and the field's value, separated by a comma and a space.
pub open spec fn joined_fields(fs: Seq<ObjectFieldModel>, k: int) -> Seq<char>
    decreases fs, k,
{
    if k <= 0 || k > fs.len() {
        Seq::empty()
    } else if k == 1 {
        fs[0].name + ": "@ + literal_chars(fs[0].value)
    } else {
        joined_fields(fs, k - 1) + ", "@ + fs[k - 1].name + ": "@ + literal_chars(fs[k - 1].value)
    }
}

fn digit_char(d: u64) -> (c: char)
    requires
        d < 10,
    ensures
        c == dec_digit(d as int),
{
    if d == 0 {
        '0'
    } else if d == 1 {
        '1'
    } else if d == 2 {
        '2'
    } else if d == 3 {
        '3'
    } else if d == 4 {
        '4'
    } else if d == 5 {
        '5'
    } else if d == 6 {
        '6'
    } else if d == 7 {
        '7'
    } else if d == 8 {
        '8'
    } else {
        '9'
    }
}

/// Renders a natural number in decimal.
pub fn render_u64(n: u64) -> (r: String)
    ensures
        r@ == dec_chars(n as nat),
{
    let mut digits: Vec<char> = Vec::new();
    let mut cur: u64 = n;
    while cur >= 10
        invariant
            dec_chars(n as nat) == dec_chars(cur as nat) + digits@.reverse(),
        decreases cur,
    {
        let d = digit_char(cur % 10);
        proof {
            assert((digits@.push(d)).reverse() =~= seq![d] + digits@.reverse());
        }
        digits.push(d);
        cur = cur / 10;
    }
    let d = digit_char(cur);
    proof {
        assert((digits@.push(d)).reverse() =~= seq![d] + digits@.reverse());
    }
    digits.push(d);
    let ghost all = digits@.reverse();
    proof {
        assert(dec_chars(n as nat) == all);
    }
    let mut r = String::new();
    let mut i: usize = digits.len();
    while i > 0
        invariant
            i <= digits.len(),
            all == digits@.reverse(),
            all.len() == digits@.len(),
            r@ =~= all.subrange(0, digits@.len() - i),
        decreases i,
    {
        i = i - 1;
        push_char(&mut r, digits[i]);
        proof {
            assert(all[digits@.len() - i - 1] == digits@[i as int]);
            assert(r@ =~= all.subrange(0, digits@.len() - i));
        }
    }
    proof {
        assert(r@ =~= all);
    }
    r
}

/// Renders a signed integer in decimal.
pub fn render_i64(n: i64) -> (r: String)
    ensures
        r@ == int_chars(n as int),
{
    if n >= 0 {
        render_u64(n as u64)
    } else {
        let magnitude: u64 = (-(n as i128)) as u64;
        let mut r = String::new();
        push_char(&mut r, '-');
        let rest = render_u64(magnitude);
        r.append(rest.as_str());
        proof {
            assert(r@ =~= seq!['-'] + dec_chars(magnitude as nat));
        }
        r
    }
}

/// Renders a literal in its canonical string form.
pub fn render_literal(v: &Literal) -> (r: String)
    ensures
        r@ == literal_chars(v@),
    decreases v,
{
    match v {
        Literal::Null => String::from_str("null"),
        Literal::Boolean(b) => if *b {
            String::from_str("true")
        } else {
            String::from_str("false")
        },
        Literal::Integer(i) => render_i64(*i),
        Literal::Text(s) => {
            let mut r = String::new();
            push_char(&mut r, '"');
            let n = s.as_str().unicode_len();
            let mut i: usize = 0;
            while i < n
                invariant
                    n == s@.len(),
                    i <= n,
                    r@ =~= seq!['"'] + escaped_prefix(s@, i as int),
                decreases n - i,
            {
                let c = s.as_str().get_char(i);
                if c == '"' || c == '\\' {
                    push_char(&mut r, '\\');
                }
                push_char(&mut r, c);
                i = i + 1;
            }
            push_char(&mut r, '"');
            proof {
                assert(r@ =~= literal_chars(v@));
            }
            r
        },
        Literal::EnumName(s) => s.clone(),
        Literal::List(xs) => {
            let ghost ms = v@->List_0;
            proof {
                assert(ms.len() == xs@.len());
            }
            let mut r = String::new();
            push_char(&mut r, '[');
            let mut i: usize = 0;
            while i < xs.len()
                invariant
                    ms == literal_model(*v)->List_0,
                    v is List && v->List_0 == *xs,
                    ms.len() == xs@.len(),
                    i <= xs@.len(),
                    r@ =~= seq!['['] + joined_elements(ms, i as int),
                decreases xs@.len() - i,
            {
                if i > 0 {
                    r.append(", ");
                }
                let e = render_literal(&xs[i]);
                r.append(e.as_str());
                proof {
                    assert(ms[i as int] == literal_model(xs@[i as int]));
                    assert(r@ =~= seq!['['] + joined_elements(ms, i + 1));
                }
                i = i + 1;
            }
            push_char(&mut r, ']');
            proof {
                assert(r@ =~= literal_chars(v@));
            }
            r
        },
        Literal::Object(fs) => {
            let ghost ms = v@->Object_0;
            proof {
                assert(ms.len() == fs@.len());
            }
            let mut r = String::new();
            push_char(&mut r, '{');
            let mut i: usize = 0;
            while i < fs.len()
                invariant
                    ms == literal_model(*v)->Object_0,
                    v is Object && v->Object_0 == *fs,
                    ms.len() == fs@.len(),
                    i <= fs@.len(),
                    r@ =~= seq!['{'] + joined_fields(ms, i as int),
                decreases fs@.len() - i,
            {
                if i > 0 {
                    r.append(", ");
                }
                r.append(fs[i].name.as_str());
                r.append(": ");
                let e = render_literal(&fs[i].value);
                r.append(e.as_str());
                proof {
                    assert(ms[i as int].name == fs@[i as int].name@);
                    assert(ms[i as int].value == literal_model(fs@[i as int].value));
                    assert(r@ =~= seq!['{'] + joined_fields(ms, i + 1));
                }
                i = i + 1;
            }
            push_char(&mut r, '}');
            proof {
                assert(r@ =~= literal_chars(v@));
            }
            r
        },
    }
}

} // verus!
