use vstd::prelude::*;

verus! {

broadcast use vstd::string::group_string_axioms;

/// An S-expression as the reader builds it.
///
/// A number keeps the numeral exactly as it was written (digits and at most
/// one `'.'`); its value is read off that text by whoever uses the tree.
#[derive(Debug, PartialEq, Eq)]
pub enum Cons {
    Cons(Box<Cons>, Box<Cons>),
    Symbol(String),
    Number(String),
    Nil,
}

/// The mathematical model of a [`Cons`]: the same tree, with the text of
/// symbols and numbers as character sequences.
pub enum SExp {
    Cons(Box<SExp>, Box<SExp>),
    Symbol(Seq<char>),
    Number(Seq<char>),
    Nil,
}

pub open spec fn cons_view(c: &Cons) -> SExp
    decreases c,
{
    match c {
        Cons::Cons(a, d) => SExp::Cons(Box::new(cons_view(a)), Box::new(cons_view(d))),
        Cons::Symbol(t) => SExp::Symbol(t@),
        Cons::Number(t) => SExp::Number(t@),
        Cons::Nil => SExp::Nil,
    }
}

impl View for Cons {
    type V = SExp;

    open spec fn view(&self) -> SExp {
        cons_view(self)
    }
}

/// A copy of an expression.
pub(crate) fn copy_cons(c: &Cons) -> (r: Cons)
    ensures
        r@ == c@,
    decreases c,
{
    match c {
        Cons::Cons(a, d) => Cons::Cons(Box::new(copy_cons(a)), Box::new(copy_cons(d))),
        Cons::Symbol(t) => Cons::Symbol(t.clone()),
        Cons::Number(t) => Cons::Number(t.clone()),
        Cons::Nil => Cons::Nil,
    }
}

/// The characters that carry the Unicode `White_Space` property.
pub open spec fn is_white_space(c: char) -> bool {
    let u = c as u32;
    ||| 0x09 <= u <= 0x0d
    ||| u == 0x20
    ||| u == 0x85
    ||| u == 0xa0
    ||| u == 0x1680
    ||| 0x2000 <= u <= 0x200a
    ||| u == 0x2028
    ||| u == 0x2029
    ||| u == 0x202f
    ||| u == 0x205f
    ||| u == 0x3000
}

/// A decimal digit, `'0'` to `'9'`.
pub open spec fn is_decimal_digit(c: char) -> bool {
    '0' <= c <= '9'
}

/// `char::is_whitespace`: true exactly for the characters with the Unicode
/// `White_Space` property.
#[verifier::external_body]
fn char_is_whitespace(c: char) -> (r: bool)
    ensures
        r == is_white_space(c),
{
    c.is_whitespace()
}

/// `char::is_digit` with radix 10: true exactly for `'0'` to `'9'`.
#[verifier::external_body]
fn char_is_decimal_digit(c: char) -> (r: bool)
    ensures
        r == is_decimal_digit(c),
{
    c.is_digit(10)
}

/// The first position at or after `i` that does not hold whitespace.
pub open spec fn skip_ws(s: Seq<char>, i: int) -> int
    decreases s.len() - i,
{
    if 0 <= i < s.len() && is_white_space(s[i]) {
        skip_ws(s, i + 1)
    } else {
        i
    }
}

/// The first position at or after `pos` that does not hold whitespace.
pub fn skip_whitespaces(chars: &Vec<char>, pos: usize) -> (r: usize)
    requires
        pos <= chars.len(),
    ensures
        r == skip_ws(chars@, pos as int),
        pos <= r <= chars.len(),
{
    let mut i = pos;
    while i < chars.len() && char_is_whitespace(chars[i])
        invariant
            pos <= i <= chars.len(),
            skip_ws(chars@, i as int) == skip_ws(chars@, pos as int),
        decreases chars.len() - i,
    {
        i = i + 1;
    }
    i
}

/// `String::push`: appends one character.
#[verifier::external_body]
fn string_push(s: &mut String, c: char)
    ensures
        final(s)@ == old(s)@.push(c),
{
    s.push(c)
}

pub proof fn lemma_skip_ws_bounds(s: Seq<char>, i: int)
    ensures
        i <= skip_ws(s, i),
        0 <= i <= s.len() ==> skip_ws(s, i) <= s.len(),
        0 <= skip_ws(s, i) < s.len() ==> !is_white_space(s[skip_ws(s, i)]),
    decreases s.len() - i,
{
    if 0 <= i < s.len() && is_white_space(s[i]) {
        lemma_skip_ws_bounds(s, i + 1);
    }
}

/// Skipping whitespace consumes exactly the longest run of whitespace from
/// `i`: every character skipped is whitespace, the next one (if any) is not,
/// and skipping again changes nothing.
pub proof fn law_skip_ws(s: Seq<char>, i: int)
    requires
        0 <= i <= s.len(),
    ensures
        i <= skip_ws(s, i) <= s.len(),
        forall|m: int| i <= m < skip_ws(s, i) ==> is_white_space(#[trigger] s[m]),
        skip_ws(s, i) < s.len() ==> !is_white_space(s[skip_ws(s, i)]),
        skip_ws(s, skip_ws(s, i)) == skip_ws(s, i),
    decreases s.len() - i,
{
    lemma_skip_ws_bounds(s, i);
    if i < s.len() && is_white_space(s[i]) {
        law_skip_ws(s, i + 1);
    }
}

/// The end of the symbol that starts at `i`: the first position at or after
/// `i` that holds `')'` or whitespace, or the end of the input.
pub open spec fn symbol_end(s: Seq<char>, i: int) -> int
    decreases s.len() - i,
{
    if 0 <= i < s.len() && s[i] != ')' && !is_white_space(s[i]) {
        symbol_end(s, i + 1)
    } else {
        i
    }
}

pub open spec fn is_numeral_char(c: char) -> bool {
    c == '.' || is_decimal_digit(c)
}

/// The end of the numeral that starts at `i`: the first position at or after
/// `i` that holds neither a digit nor `'.'`, or the end of the input.
pub open spec fn numeral_end(s: Seq<char>, i: int) -> int
    decreases s.len() - i,
{
    if 0 <= i < s.len() && is_numeral_char(s[i]) {
        numeral_end(s, i + 1)
    } else {
        i
    }
}

/// How many `'.'` a text holds.
pub open spec fn dot_count(t: Seq<char>) -> nat
    decreases t.len(),
{
    if t.len() == 0 {
        0
    } else {
        dot_count(t.drop_last()) + if t.last() == '.' { 1nat } else { 0nat }
    }
}

/// A text of digits and dots that starts with a digit is a number (in the
/// grammar of `f64`'s `FromStr`: `Digit+ ('.' Digit*)?`) exactly when it holds
/// at most one dot.
pub open spec fn numeral_is_number(t: Seq<char>) -> bool {
    dot_count(t) <= 1
}

/// Reading one expression from position `i` of `s`: the expression and the
/// position after it, or `None` where reading fails (a `')'` where an
/// expression should start, a numeral with two dots, or a list that is never
/// closed).  Whitespace before the expression is skipped; at the end of the
/// input the expression is `Nil`.
pub open spec fn parse_exp(s: Seq<char>, i: int) -> Option<(SExp, int)>
    decreases s.len() - i, 0int,
{
    let j = skip_ws(s, i);
    proof {
        lemma_skip_ws_bounds(s, i);
    }
    if j >= s.len() {
        Some((SExp::Nil, j))
    } else if s[j] == ')' {
        None
    } else if s[j] == '(' {
        parse_elems(s, j + 1)
    } else if is_decimal_digit(s[j]) {
        let k = numeral_end(s, j);
        if numeral_is_number(s.subrange(j, k)) {
            Some((SExp::Number(s.subrange(j, k)), k))
        } else {
            None
        }
    } else {
        let k = symbol_end(s, j);
        Some((SExp::Symbol(s.subrange(j, k)), k))
    }
}

/// Reading the rest of a list from position `i` (after its `'('` or after an
/// element): the elements up to the closing `')'` as a chain of `Cons` cells
/// ending in `Nil`, and the position after the `')'`.
pub open spec fn parse_elems(s: Seq<char>, i: int) -> Option<(SExp, int)>
    decreases s.len() - i, 1int,
{
    let j = skip_ws(s, i);
    proof {
        lemma_skip_ws_bounds(s, i);
    }
    if j >= s.len() {
        None
    } else if s[j] == ')' {
        Some((SExp::Nil, j + 1))
    } else {
        match parse_exp(s, j) {
            Some((e, k)) => if j < k <= s.len() {
                match parse_elems(s, k) {
                    Some((rest, m)) => Some((SExp::Cons(Box::new(e), Box::new(rest)), m)),
                    None => None,
                }
            } else {
                None
            },
            None => None,
        }
    }
}

/// What reading a whole text gives: its first expression.
pub open spec fn read_spec(s: Seq<char>) -> Option<SExp> {
    match parse_exp(s, 0) {
        Some((e, _)) => Some(e),
        None => None,
    }
}

pub open spec fn opt_view(r: Option<(Cons, usize)>) -> Option<(SExp, int)> {
    match r {
        Some((c, k)) => Some((c@, k as int)),
        None => None,
    }
}

fn read_symbol(chars: &Vec<char>, pos: usize) -> (r: (Cons, usize))
    requires
        pos <= chars.len(),
    ensures
        r.1 == symbol_end(chars@, pos as int),
        r.1 <= chars.len(),
        r.0@ == SExp::Symbol(chars@.subrange(pos as int, r.1 as int)),
{
    let mut name = String::new();
    let mut i = pos;
    while i < chars.len() && chars[i] != ')' && !char_is_whitespace(chars[i])
        invariant
            pos <= i <= chars.len(),
            symbol_end(chars@, i as int) == symbol_end(chars@, pos as int),
            name@ == chars@.subrange(pos as int, i as int),
        decreases chars.len() - i,
    {
        string_push(&mut name, chars[i]);
        i = i + 1;
        assert(name@ =~= chars@.subrange(pos as int, i as int));
    }
    (Cons::Symbol(name), i)
}

/// Reads the numeral that starts at `pos` (with a digit); `None` where it
/// holds two dots, which no `f64` reads.
fn read_number(chars: &Vec<char>, pos: usize) -> (r: Option<(Cons, usize)>)
    requires
        pos < chars.len(),
        is_decimal_digit(chars@[pos as int]),
    ensures
        ({
            let k = numeral_end(chars@, pos as int);
            let t = chars@.subrange(pos as int, k);
            opt_view(r) == if numeral_is_number(t) {
                Some((SExp::Number(t), k))
            } else {
                None
            }
        }),
        r matches Some((_, k)) ==> k <= chars.len(),
{
    let mut num = String::new();
    let mut i = pos;
    let mut dots: usize = 0;
    while i < chars.len() && (chars[i] == '.' || char_is_decimal_digit(chars[i]))
        invariant
            pos <= i <= chars.len(),
            numeral_end(chars@, i as int) == numeral_end(chars@, pos as int),
            num@ == chars@.subrange(pos as int, i as int),
            dots == dot_count(chars@.subrange(pos as int, i as int)),
            dots <= i - pos,
        decreases chars.len() - i,
    {
        assert(chars@.subrange(pos as int, i + 1).drop_last() =~= chars@.subrange(pos as int, i as int));
        if chars[i] == '.' {
            dots = dots + 1;
        }
        string_push(&mut num, chars[i]);
        i = i + 1;
        assert(num@ =~= chars@.subrange(pos as int, i as int));
    }
    if dots <= 1 {
        Some((Cons::Number(num), i))
    } else {
        None
    }
}

pub proof fn lemma_symbol_end_bounds(s: Seq<char>, i: int)
    ensures
        i <= symbol_end(s, i),
        0 <= i <= s.len() ==> symbol_end(s, i) <= s.len(),
        0 <= i < s.len() && s[i] != ')' && !is_white_space(s[i]) ==> i < symbol_end(s, i),
    decreases s.len() - i,
{
    if 0 <= i < s.len() && s[i] != ')' && !is_white_space(s[i]) {
        lemma_symbol_end_bounds(s, i + 1);
    }
}

pub proof fn lemma_numeral_end_bounds(s: Seq<char>, i: int)
    ensures
        i <= numeral_end(s, i),
        0 <= i <= s.len() ==> numeral_end(s, i) <= s.len(),
        0 <= i < s.len() && is_numeral_char(s[i]) ==> i < numeral_end(s, i),
    decreases s.len() - i,
{
    if 0 <= i < s.len() && is_numeral_char(s[i]) {
        lemma_numeral_end_bounds(s, i + 1);
    }
}

/// Reads one expression from `pos`.  `None` stands for the inputs on which
/// reading fails (a `')'` where an expression should start, a numeral with
/// two dots, a list never closed): `read` excludes them by its `requires`,
/// and `try_read` reports them.
fn read_exp(chars: &Vec<char>, pos: usize) -> (r: Option<(Cons, usize)>)
    requires
        pos <= chars.len(),
    ensures
        opt_view(r) == parse_exp(chars@, pos as int),
        r matches Some((_, k)) ==> {
            &&& pos <= k <= chars.len()
            &&& skip_ws(chars@, pos as int) < chars.len() ==> skip_ws(chars@, pos as int) < k
        },
    decreases chars.len() - pos, 1int,
{
    let j: usize = skip_whitespaces(chars, pos);
    proof {
        lemma_skip_ws_bounds(chars@, pos as int);
    }
    if j >= chars.len() {
        Some((Cons::Nil, j))
    } else if chars[j] == ')' {
        None
    } else if chars[j] == '(' {
        read_list(chars, j)
    } else if char_is_decimal_digit(chars[j]) {
        proof {
            lemma_numeral_end_bounds(chars@, j as int);
        }
        read_number(chars, j)
    } else {
        proof {
            lemma_symbol_end_bounds(chars@, j as int);
        }
        let (c, k) = read_symbol(chars, j);
        Some((c, k))
    }
}

fn read_list(chars: &Vec<char>, pos: usize) -> (r: Option<(Cons, usize)>)
    requires
        pos < chars.len(),
    ensures
        opt_view(r) == parse_elems(chars@, pos + 1),
        r matches Some((_, k)) ==> pos < k <= chars.len(),
    decreases chars.len() - pos, 0int,
{
    read_list_elem(chars, pos + 1)
}

/// Reads the rest of a list from `pos` up to and including its `')'`.
/// `None` stands for a failure inside, or for a list that is never closed,
/// where reading would go on for ever.
fn read_list_elem(chars: &Vec<char>, pos: usize) -> (r: Option<(Cons, usize)>)
    requires
        pos <= chars.len(),
    ensures
        opt_view(r) == parse_elems(chars@, pos as int),
        r matches Some((_, k)) ==> pos < k <= chars.len(),
    decreases chars.len() - pos, 2int,
{
    let j: usize = skip_whitespaces(chars, pos);
    proof {
        lemma_skip_ws_bounds(chars@, pos as int);
    }
    if j >= chars.len() {
        None
    } else if chars[j] == ')' {
        Some((Cons::Nil, j + 1))
    } else {
        proof {
            lemma_skip_ws_bounds(chars@, j as int);
        }
        match read_exp(chars, j) {
            None => None,
            Some((e, k)) => match read_list_elem(chars, k) {
                None => None,
                Some((rest, m)) => Some((Cons::Cons(Box::new(e), Box::new(rest)), m)),
            },
        }
    }
}

fn chars_of(s: &str) -> (r: Vec<char>)
    ensures
        r@ == s@,
{
    let mut v: Vec<char> = Vec::new();
    for c in it: s.chars()
        invariant
            it.seq() == s@,
            v@ == s@.take(it.index() as int),
    {
        v.push(c);
        assert(v@ =~= s@.take(it.index() as int + 1));
    }
    assert(s@.take(s@.len() as int) =~= s@);
    v
}

/// Reads the first expression of `s`, or gives `None` on the inputs that
/// cannot be read: a `')'` where an expression should start, a numeral with
/// two dots, or a list that is never closed.
pub fn try_read(s: &str) -> (r: Option<Cons>)
    ensures
        match r {
            Some(c) => read_spec(s@) == Some(c@),
            None => read_spec(s@) is None,
        },
{
    let chars = chars_of(s);
    match read_exp(&chars, 0) {
        Some((c, _)) => Some(c),
        None => None,
    }
}

/// Reads the first expression of `s`.  Leading whitespace is skipped, a
/// `'('` opens a list, a digit starts a number (digits and dots), anything
/// else a symbol that runs up to whitespace or `')'`; an empty input reads as
/// `Nil`.
pub fn read(s: String) -> (r: Cons)
    requires
        read_spec(s@) is Some,
    ensures
        read_spec(s@) == Some(r@),
{
    let chars = chars_of(s.as_str());
    match read_exp(&chars, 0) {
        Some((c, _)) => c,
        None => {
            proof {
                assert(false);
            }
            Cons::Nil
        },
    }
}

/// A symbol as the reader can produce it: not empty, not starting with a
/// digit or `'('`, and free of `')'` and whitespace.
pub open spec fn is_symbol_text(t: Seq<char>) -> bool {
    &&& t.len() > 0
    &&& !is_decimal_digit(t[0])
    &&& t[0] != '('
    &&& forall|m: int| 0 <= m < t.len() ==> #[trigger] t[m] != ')' && !is_white_space(t[m])
}

/// A numeral as the reader can produce it: a digit, then digits and dots,
/// with at most one dot.
pub open spec fn is_numeral_text(t: Seq<char>) -> bool {
    &&& t.len() > 0
    &&& is_decimal_digit(t[0])
    &&& forall|m: int| 0 <= m < t.len() ==> is_numeral_char(#[trigger] t[m])
    &&& numeral_is_number(t)
}

/// A proper list: `Nil` or a cell.
pub open spec fn is_list(e: SExp) -> bool {
    e is Nil || e is Cons
}

/// The expressions that can come out of the reader: symbols and numerals as
/// above, and cells whose tail is a proper list (a chain of cells that ends in
/// `Nil`).
pub open spec fn well_formed(e: SExp) -> bool
    decreases e,
{
    match e {
        SExp::Nil => true,
        SExp::Symbol(t) => is_symbol_text(t),
        SExp::Number(t) => is_numeral_text(t),
        SExp::Cons(a, d) => well_formed(*a) && is_list(*d) && well_formed(*d),
    }
}

/// The canonical text of an expression: lists in parentheses with their
/// elements separated by one space, `Nil` as `()`.
pub open spec fn print_exp(e: SExp) -> Seq<char>
    decreases e,
{
    match e {
        SExp::Nil => seq!['(', ')'],
        SExp::Symbol(t) => t,
        SExp::Number(t) => t,
        SExp::Cons(a, d) => seq!['('] + print_exp(*a) + print_rest(*d),
    }
}

/// The text of the rest of a list: each further element after a space, then
/// the closing `')'`.
pub open spec fn print_rest(d: SExp) -> Seq<char>
    decreases d,
{
    match d {
        SExp::Cons(a, d2) => seq![' '] + print_exp(*a) + print_rest(*d2),
        _ => seq![')'],
    }
}

pub open spec fn occurs_at(s: Seq<char>, i: int, p: Seq<char>) -> bool {
    &&& 0 <= i
    &&& i + p.len() <= s.len()
    &&& forall|m: int| 0 <= m < p.len() ==> #[trigger] s[i + m] == p[m]
}

/// Position `k` ends a token: the input ends there, or it holds whitespace or
/// `')'`.
pub open spec fn token_boundary(s: Seq<char>, k: int) -> bool {
    k == s.len() || (0 <= k < s.len() && (is_white_space(s[k]) || s[k] == ')'))
}

proof fn lemma_symbol_end_run(s: Seq<char>, i: int, k: int)
    requires
        0 <= i <= k <= s.len(),
        forall|m: int| i <= m < k ==> #[trigger] s[m] != ')' && !is_white_space(s[m]),
        token_boundary(s, k),
    ensures
        symbol_end(s, i) == k,
    decreases k - i,
{
    if i < k {
        lemma_symbol_end_run(s, i + 1, k);
    }
}

proof fn lemma_numeral_end_run(s: Seq<char>, i: int, k: int)
    requires
        0 <= i <= k <= s.len(),
        forall|m: int| i <= m < k ==> is_numeral_char(#[trigger] s[m]),
        token_boundary(s, k),
    ensures
        numeral_end(s, i) == k,
    decreases k - i,
{
    if i < k {
        lemma_numeral_end_run(s, i + 1, k);
    }
}

proof fn lemma_print_exp_start(e: SExp)
    requires
        well_formed(e),
    ensures
        print_exp(e).len() > 0,
        !is_white_space(print_exp(e)[0]),
        print_exp(e)[0] != ')',
{
    match e {
        SExp::Cons(a, d) => {
            assert((seq!['('] + print_exp(*a) + print_rest(*d))[0] == '(');
        },
        SExp::Symbol(t) => {
            assert(t[0] != ')' && !is_white_space(t[0]));
        },
        _ => {},
    }
}

proof fn lemma_print_rest_start(d: SExp)
    ensures
        print_rest(d).len() > 0,
        print_rest(d)[0] == ' ' || print_rest(d)[0] == ')',
{
    match d {
        SExp::Cons(a, d2) => {
            assert((seq![' '] + print_exp(*a) + print_rest(*d2))[0] == ' ');
        },
        _ => {},
    }
}

proof fn lemma_parse_printed_exp(e: SExp, s: Seq<char>, i: int)
    requires
        well_formed(e),
        occurs_at(s, i, print_exp(e)),
        is_list(e) || token_boundary(s, i + print_exp(e).len()),
    ensures
        parse_exp(s, i) == Some((e, i + print_exp(e).len())),
    decreases e, 0int,
{
    let p = print_exp(e);
    lemma_print_exp_start(e);
    assert(s[i + 0] == p[0]);
    assert(skip_ws(s, i) == i);
    match e {
        SExp::Nil => {
            assert(s[i + 1] == p[1]);
            assert(skip_ws(s, i + 1) == i + 1);
        },
        SExp::Symbol(t) => {
            assert forall|m: int| i <= m < i + t.len() implies #[trigger] s[m] != ')' && !is_white_space(s[m]) by {
                assert(s[i + (m - i)] == t[m - i]);
            }
            lemma_symbol_end_run(s, i, i + t.len());
            assert(s.subrange(i, i + t.len()) =~= t) by {
                assert forall|m: int| 0 <= m < t.len() implies #[trigger] s.subrange(i, i + t.len())[m] == t[m] by {
                    assert(s[i + m] == t[m]);
                }
            }
        },
        SExp::Number(t) => {
            assert forall|m: int| i <= m < i + t.len() implies is_numeral_char(#[trigger] s[m]) by {
                assert(s[i + (m - i)] == t[m - i]);
            }
            lemma_numeral_end_run(s, i, i + t.len());
            assert(s.subrange(i, i + t.len()) =~= t) by {
                assert forall|m: int| 0 <= m < t.len() implies #[trigger] s.subrange(i, i + t.len())[m] == t[m] by {
                    assert(s[i + m] == t[m]);
                }
            }
        },
        SExp::Cons(a, d) => {
            let pa = print_exp(*a);
            let pd = print_rest(*d);
            assert(p == seq!['('] + pa + pd);
            assert(occurs_at(s, i + 1, pa)) by {
                assert forall|m: int| 0 <= m < pa.len() implies #[trigger] s[i + 1 + m] == pa[m] by {
                    assert(s[i + (1 + m)] == p[1 + m]);
                }
            }
            assert(occurs_at(s, i + 1 + pa.len(), pd)) by {
                assert forall|m: int| 0 <= m < pd.len() implies #[trigger] s[i + 1 + pa.len() + m] == pd[m] by {
                    assert(s[i + (1 + pa.len() + m)] == p[1 + pa.len() + m]);
                }
            }
            lemma_print_rest_start(*d);
            assert(s[i + 1 + pa.len() + 0] == pd[0]);
            lemma_print_exp_start(*a);
            assert(s[i + 1 + 0] == pa[0]);
            assert(skip_ws(s, i + 1) == i + 1);
            lemma_parse_printed_exp(*a, s, i + 1);
            lemma_parse_printed_rest(*d, s, i + 1 + pa.len());
        },
    }
}

proof fn lemma_parse_printed_rest(d: SExp, s: Seq<char>, i: int)
    requires
        is_list(d),
        well_formed(d),
        occurs_at(s, i, print_rest(d)),
    ensures
        parse_elems(s, i) == Some((d, i + print_rest(d).len())),
    decreases d, 1int,
{
    let r = print_rest(d);
    assert(s[i + 0] == r[0]);
    match d {
        SExp::Cons(a, d2) => {
            let pa = print_exp(*a);
            let pd = print_rest(*d2);
            assert(r == seq![' '] + pa + pd);
            assert(occurs_at(s, i + 1, pa)) by {
                assert forall|m: int| 0 <= m < pa.len() implies #[trigger] s[i + 1 + m] == pa[m] by {
                    assert(s[i + (1 + m)] == r[1 + m]);
                }
            }
            assert(occurs_at(s, i + 1 + pa.len(), pd)) by {
                assert forall|m: int| 0 <= m < pd.len() implies #[trigger] s[i + 1 + pa.len() + m] == pd[m] by {
                    assert(s[i + (1 + pa.len() + m)] == r[1 + pa.len() + m]);
                }
            }
            lemma_print_rest_start(*d2);
            assert(s[i + 1 + pa.len() + 0] == pd[0]);
            lemma_print_exp_start(*a);
            assert(s[i + 1 + 0] == pa[0]);
            assert(skip_ws(s, i + 1) == i + 1);
            assert(skip_ws(s, i) == i + 1);
            lemma_parse_printed_exp(*a, s, i + 1);
            lemma_parse_printed_rest(*d2, s, i + 1 + pa.len());
        },
        _ => {
            assert(skip_ws(s, i) == i);
        },
    }
}

/// Reading the canonical text of any expression that the reader can produce
/// gives that expression back.
pub proof fn law_read_print_roundtrip(e: SExp)
    requires
        well_formed(e),
    ensures
        read_spec(print_exp(e)) == Some(e),
{
    let p = print_exp(e);
    assert(occurs_at(p, 0, p));
    lemma_parse_printed_exp(e, p, 0);
}

proof fn lemma_symbol_end_chars(s: Seq<char>, i: int)
    requires
        0 <= i,
    ensures
        forall|m: int| i <= m < symbol_end(s, i) ==> #[trigger] s[m] != ')' && !is_white_space(s[m]),
    decreases s.len() - i,
{
    if 0 <= i < s.len() && s[i] != ')' && !is_white_space(s[i]) {
        lemma_symbol_end_chars(s, i + 1);
    }
}

proof fn lemma_numeral_end_chars(s: Seq<char>, i: int)
    requires
        0 <= i,
    ensures
        forall|m: int| i <= m < numeral_end(s, i) ==> is_numeral_char(#[trigger] s[m]),
    decreases s.len() - i,
{
    if 0 <= i < s.len() && is_numeral_char(s[i]) {
        lemma_numeral_end_chars(s, i + 1);
    }
}

proof fn lemma_parse_exp_well_formed(s: Seq<char>, i: int)
    requires
        0 <= i <= s.len(),
    ensures
        parse_exp(s, i) matches Some((e, _)) ==> well_formed(e),
    decreases s.len() - i, 0int,
{
    let j = skip_ws(s, i);
    lemma_skip_ws_bounds(s, i);
    if j >= s.len() {
    } else if s[j] == ')' {
    } else if s[j] == '(' {
        lemma_parse_elems_well_formed(s, j + 1);
    } else if is_decimal_digit(s[j]) {
        let k = numeral_end(s, j);
        lemma_numeral_end_bounds(s, j);
        lemma_numeral_end_chars(s, j);
        let t = s.subrange(j, k);
        assert forall|m: int| 0 <= m < t.len() implies is_numeral_char(#[trigger] t[m]) by {
            assert(t[m] == s[j + m]);
        }
    } else {
        let k = symbol_end(s, j);
        lemma_symbol_end_bounds(s, j);
        lemma_symbol_end_chars(s, j);
        let t = s.subrange(j, k);
        assert forall|m: int| 0 <= m < t.len() implies #[trigger] t[m] != ')' && !is_white_space(t[m]) by {
            assert(t[m] == s[j + m]);
        }
    }
}

proof fn lemma_parse_elems_well_formed(s: Seq<char>, i: int)
    requires
        0 <= i <= s.len(),
    ensures
        parse_elems(s, i) matches Some((e, _)) ==> well_formed(e) && is_list(e),
    decreases s.len() - i, 1int,
{
    let j = skip_ws(s, i);
    lemma_skip_ws_bounds(s, i);
    if j < s.len() && s[j] != ')' {
        lemma_parse_exp_well_formed(s, j);
        if let Some((e, k)) = parse_exp(s, j) {
            if j < k <= s.len() {
                lemma_parse_elems_well_formed(s, k);
            }
        }
    }
}

/// Whatever the reader gives is well formed: its symbols and numerals are
/// tokens, and its lists are proper.
pub proof fn law_read_well_formed(s: Seq<char>)
    ensures
        read_spec(s) matches Some(e) ==> well_formed(e),
{
    lemma_parse_exp_well_formed(s, 0);
}

/// Reading is a normal form: reading the canonical text of what was read
/// gives the same expression again.
pub proof fn law_read_print_read(s: Seq<char>)
    requires
        read_spec(s) is Some,
    ensures
        read_spec(print_exp(read_spec(s).unwrap())) == read_spec(s),
{
    law_read_well_formed(s);
    law_read_print_roundtrip(read_spec(s).unwrap());
}

pub open spec fn shift(r: Option<(SExp, int)>, d: int) -> Option<(SExp, int)> {
    match r {
        Some((e, k)) => Some((e, k + d)),
        None => None,
    }
}

proof fn lemma_skip_ws_shift(p: Seq<char>, t: Seq<char>, i: int)
    requires
        0 <= i <= t.len(),
    ensures
        skip_ws(p + t, p.len() + i) == p.len() + skip_ws(t, i),
    decreases t.len() - i,
{
    if i < t.len() {
        assert((p + t)[p.len() + i] == t[i]);
        lemma_skip_ws_shift(p, t, i + 1);
    }
}

proof fn lemma_symbol_end_shift(p: Seq<char>, t: Seq<char>, i: int)
    requires
        0 <= i <= t.len(),
    ensures
        symbol_end(p + t, p.len() + i) == p.len() + symbol_end(t, i),
    decreases t.len() - i,
{
    if i < t.len() {
        assert((p + t)[p.len() + i] == t[i]);
        lemma_symbol_end_shift(p, t, i + 1);
    }
}

proof fn lemma_numeral_end_shift(p: Seq<char>, t: Seq<char>, i: int)
    requires
        0 <= i <= t.len(),
    ensures
        numeral_end(p + t, p.len() + i) == p.len() + numeral_end(t, i),
    decreases t.len() - i,
{
    if i < t.len() {
        assert((p + t)[p.len() + i] == t[i]);
        lemma_numeral_end_shift(p, t, i + 1);
    }
}

proof fn lemma_parse_exp_shift(p: Seq<char>, t: Seq<char>, i: int)
    requires
        0 <= i <= t.len(),
    ensures
        parse_exp(p + t, p.len() + i) == shift(parse_exp(t, i), p.len() as int),
    decreases t.len() - i, 0int,
{
    let s = p + t;
    let d = p.len() as int;
    lemma_skip_ws_shift(p, t, i);
    lemma_skip_ws_bounds(t, i);
    let j = skip_ws(t, i);
    if j < t.len() {
        assert(s[d + j] == t[j]);
        if t[j] == ')' {
        } else if t[j] == '(' {
            lemma_parse_elems_shift(p, t, j + 1);
        } else if is_decimal_digit(t[j]) {
            lemma_numeral_end_shift(p, t, j);
            lemma_numeral_end_bounds(t, j);
            let k = numeral_end(t, j);
            assert(s.subrange(d + j, d + k) =~= t.subrange(j, k));
        } else {
            lemma_symbol_end_shift(p, t, j);
            lemma_symbol_end_bounds(t, j);
            let k = symbol_end(t, j);
            assert(s.subrange(d + j, d + k) =~= t.subrange(j, k));
        }
    }
}

proof fn lemma_parse_elems_shift(p: Seq<char>, t: Seq<char>, i: int)
    requires
        0 <= i <= t.len(),
    ensures
        parse_elems(p + t, p.len() + i) == shift(parse_elems(t, i), p.len() as int),
    decreases t.len() - i, 1int,
{
    let s = p + t;
    let d = p.len() as int;
    lemma_skip_ws_shift(p, t, i);
    lemma_skip_ws_bounds(t, i);
    let j = skip_ws(t, i);
    if j < t.len() {
        assert(s[d + j] == t[j]);
        if t[j] != ')' {
            lemma_parse_exp_shift(p, t, j);
            if let Some((e, k)) = parse_exp(t, j) {
                if j < k <= t.len() {
                    lemma_parse_elems_shift(p, t, k);
                }
            }
        }
    }
}

proof fn lemma_skip_leading_ws(w: Seq<char>, s: Seq<char>, i: int)
    requires
        0 <= i <= w.len(),
        forall|m: int| 0 <= m < w.len() ==> is_white_space(#[trigger] w[m]),
    ensures
        skip_ws(w + s, i) == skip_ws(w + s, w.len() as int),
    decreases w.len() - i,
{
    if i < w.len() {
        assert((w + s)[i] == w[i]);
        lemma_skip_leading_ws(w, s, i + 1);
    }
}

/// Whitespace in front of a text does not change what is read from it.
pub proof fn law_leading_whitespace(w: Seq<char>, s: Seq<char>)
    requires
        forall|m: int| 0 <= m < w.len() ==> is_white_space(#[trigger] w[m]),
    ensures
        read_spec(w + s) == read_spec(s),
{
    lemma_skip_leading_ws(w, s, 0);
    lemma_skip_ws_bounds(w + s, 0);
    lemma_skip_ws_bounds(w + s, w.len() as int);
    assert(parse_exp(w + s, 0) == parse_exp(w + s, w.len() as int));
    lemma_parse_exp_shift(w, s, 0);
}

/// A list element needs no separator after a `')'`: reading `(`, the
/// canonical text of a list `e1`, straight after it that of any expression
/// `e2`, and `)` gives the two-element list of `e1` and `e2`.
pub proof fn law_list_after_close(e1: SExp, e2: SExp)
    requires
        well_formed(e1),
        is_list(e1),
        well_formed(e2),
    ensures
        read_spec(seq!['('] + print_exp(e1) + print_exp(e2) + seq![')']) == Some(
            SExp::Cons(Box::new(e1), Box::new(SExp::Cons(Box::new(e2), Box::new(SExp::Nil)))),
        ),
{
    let p1 = print_exp(e1);
    let p2 = print_exp(e2);
    let s = seq!['('] + p1 + p2 + seq![')'];
    let n1 = p1.len() as int;
    let n2 = p2.len() as int;
    lemma_print_exp_start(e1);
    lemma_print_exp_start(e2);
    assert(s[0int] == '(');
    assert(s[1int + 0] == p1[0]);
    assert(s[1 + n1 + 0] == p2[0]);
    assert(s[1 + n1 + n2] == ')');
    assert(occurs_at(s, 1, p1)) by {
        assert forall|m: int| 0 <= m < p1.len() implies #[trigger] s[1 + m] == p1[m] by {}
    }
    assert(occurs_at(s, 1 + n1, p2)) by {
        assert forall|m: int| 0 <= m < p2.len() implies #[trigger] s[1 + n1 + m] == p2[m] by {}
    }
    assert(skip_ws(s, 0) == 0);
    assert(skip_ws(s, 1) == 1);
    assert(skip_ws(s, 1 + n1) == 1 + n1);
    assert(skip_ws(s, 1 + n1 + n2) == 1 + n1 + n2);
    lemma_parse_printed_exp(e1, s, 1);
    lemma_parse_printed_exp(e2, s, 1 + n1);
    let nil = SExp::Nil;
    let tail = SExp::Cons(Box::new(e2), Box::new(nil));
    let whole = SExp::Cons(Box::new(e1), Box::new(tail));
    assert(parse_elems(s, 1 + n1 + n2) == Some((nil, 2 + n1 + n2)));
    assert(parse_elems(s, 1 + n1) == Some((tail, 2 + n1 + n2)));
    assert(parse_elems(s, 1) == Some((whole, 2 + n1 + n2)));
    assert(parse_exp(s, 0) == Some((whole, 2 + n1 + n2)));
}

} // verus!
