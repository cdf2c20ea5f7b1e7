use koto::conflisp::{read, try_read, Cons};

fn sym(s: &str) -> Cons {
    Cons::Symbol(s.to_string())
}

fn num(s: &str) -> Cons {
    Cons::Number(s.to_string())
}

fn cell(a: Cons, d: Cons) -> Cons {
    Cons::Cons(Box::new(a), Box::new(d))
}

fn list(items: Vec<Cons>) -> Cons {
    let mut r = Cons::Nil;
    for it in items.into_iter().rev() {
        r = cell(it, r);
    }
    r
}

/// The canonical text of an expression, as in the roundtrip law.
fn print(c: &Cons) -> String {
    match c {
        Cons::Nil => "()".to_string(),
        Cons::Symbol(t) | Cons::Number(t) => t.clone(),
        Cons::Cons(a, d) => {
            let mut s = format!("({}", print(a));
            let mut rest: &Cons = d;
            while let Cons::Cons(x, y) = rest {
                s.push(' ');
                s.push_str(&print(x));
                rest = y;
            }
            s.push(')');
            s
        }
    }
}

#[test]
fn empty_input_reads_nil() {
    assert_eq!(read(String::new()), Cons::Nil);
    assert_eq!(read("   \n\t ".to_string()), Cons::Nil);
}

#[test]
fn symbol_runs_to_whitespace_or_paren() {
    assert_eq!(read("abc".to_string()), sym("abc"));
    assert_eq!(read("  abc def".to_string()), sym("abc"));
    assert_eq!(read("a(b".to_string()), sym("a(b"));
    assert_eq!(read("xy)z".to_string()), sym("xy"));
    assert_eq!(read("+".to_string()), sym("+"));
}

#[test]
fn number_keeps_its_numeral() {
    assert_eq!(read("12.5".to_string()), num("12.5"));
    assert_eq!(read("440".to_string()), num("440"));
    assert_eq!(read("7.".to_string()), num("7."));
    assert_eq!(read("12abc".to_string()), num("12"));
}

#[test]
fn lists_nest() {
    let got = read("(gain 0.1 (offset 0.0 (saw 0.0 440)))".to_string());
    let want = list(vec![
        sym("gain"),
        num("0.1"),
        list(vec![sym("offset"), num("0.0"), list(vec![sym("saw"), num("0.0"), num("440")])]),
    ]);
    assert_eq!(got, want);
    assert_eq!(read("()".to_string()), Cons::Nil);
    assert_eq!(read("( ( ) a )".to_string()), list(vec![Cons::Nil, sym("a")]));
    assert_eq!(read("(12abc)".to_string()), list(vec![num("12"), sym("abc")]));
}

#[test]
fn unicode_whitespace_is_skipped() {
    assert_eq!(read("\u{3000}\u{a0}x".to_string()), sym("x"));
    assert_eq!(read("a\u{2028}b".to_string()), sym("a"));
    assert_eq!(read("(a\u{85}b)".to_string()), list(vec![sym("a"), sym("b")]));
}

#[test]
fn text_after_the_first_expression_is_ignored() {
    assert_eq!(read("a )".to_string()), sym("a"));
    assert_eq!(read("(a) (b".to_string()), list(vec![sym("a")]));
}

#[test]
fn unreadable_inputs_are_refused() {
    assert_eq!(try_read(")"), None);
    assert_eq!(try_read("  ) a"), None);
    assert_eq!(try_read("1.2.3"), None);
    assert_eq!(try_read("(1.2.3)"), None);
    assert_eq!(try_read("(a b"), None);
    assert_eq!(try_read("("), None);
    assert_eq!(try_read("(a (b)"), None);
}

#[test]
fn try_read_agrees_with_read() {
    for s in ["", "abc", "(a b (c))", "3.25", "  (x)  y"] {
        assert_eq!(try_read(s), Some(read(s.to_string())));
    }
}

#[test]
fn reading_printed_text_gives_it_back() {
    let e = list(vec![sym("a"), num("1.5"), Cons::Nil, list(vec![sym("b"), list(vec![])]), sym("c(d")]);
    let text = print(&e);
    assert_eq!(text, "(a 1.5 () (b ()) c(d)");
    assert_eq!(read(text), e);
}

#[test]
fn reading_is_a_normal_form() {
    let first = read("(  foo\n 12   (bar)\t() )".to_string());
    let text = print(&first);
    assert_eq!(text, "(foo 12 (bar) ())");
    assert_eq!(read(text), first);
}

fn well_formed(c: &Cons) -> bool {
    match c {
        Cons::Nil => true,
        Cons::Symbol(t) => {
            let first = t.chars().next();
            matches!(first, Some(f) if !f.is_ascii_digit() && f != '(')
                && t.chars().all(|ch| ch != ')' && !ch.is_whitespace())
        }
        Cons::Number(t) => {
            t.chars().next().map_or(false, |f| f.is_ascii_digit())
                && t.chars().all(|ch| ch == '.' || ch.is_ascii_digit())
                && t.chars().filter(|ch| *ch == '.').count() <= 1
        }
        Cons::Cons(a, d) => well_formed(a) && matches!(**d, Cons::Nil | Cons::Cons(..)) && well_formed(d),
    }
}

#[test]
fn whatever_is_read_is_well_formed() {
    for s in ["(a(b c) 1.5 2. x)y", "  ((()))", "abc(def", "0.5", "(+ 1 2 (* 3 4))"] {
        assert!(well_formed(&read(s.to_string())), "{:?}", s);
    }
}

#[test]
fn leading_whitespace_changes_nothing() {
    for s in ["(a b)", "x", "12", ")", "(a"] {
        let padded = format!(" \t\n\u{2003}{}", s);
        assert_eq!(try_read(&padded), try_read(s));
    }
}

/// The characters that the reader treats as whitespace, as its contract
/// lists them.
fn listed_white_space(c: char) -> bool {
    let u = c as u32;
    (0x09..=0x0d).contains(&u)
        || u == 0x20
        || u == 0x85
        || u == 0xa0
        || u == 0x1680
        || (0x2000..=0x200a).contains(&u)
        || u == 0x2028
        || u == 0x2029
        || u == 0x202f
        || u == 0x205f
        || u == 0x3000
}

#[test]
fn whitespace_set_is_that_of_std() {
    for u in 0..=0x10ffffu32 {
        if let Some(c) = char::from_u32(u) {
            assert_eq!(c.is_whitespace(), listed_white_space(c), "U+{:04X}", u);
            assert_eq!(c.is_digit(10), ('0'..='9').contains(&c), "U+{:04X}", u);
        }
    }
}

#[test]
fn every_whitespace_character_separates_tokens() {
    for u in 0..=0x10ffffu32 {
        if let Some(c) = char::from_u32(u) {
            if listed_white_space(c) {
                let text = format!("(a{}b)", c);
                assert_eq!(read(text), list(vec![sym("a"), sym("b")]));
            }
        }
    }
}
