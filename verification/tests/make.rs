use koto::conflisp::{read, Cons};
use koto::tapirlisp::make::{
    make_event, make_unit, ArgOutcome, EvError, EventShape, MakeError, MakeStep, PlanArg, UnitKind, UnitPlan,
};

fn args(text: &str) -> Vec<Box<Cons>> {
    // `text` is a list; its elements become the arguments.
    let mut out = Vec::new();
    let mut rest = read(text.to_string());
    while let Cons::Cons(a, d) = rest {
        out.push(a);
        rest = *d;
    }
    out
}

fn done(kind: UnitKind, a: Vec<PlanArg>) -> MakeStep {
    MakeStep::Done(Ok(UnitPlan { kind, args: a }))
}

fn err(e: MakeError) -> MakeStep {
    MakeStep::Done(Err(e))
}

fn num(t: &str) -> PlanArg {
    PlanArg::Numeral(t.to_string())
}

fn wrong(label: &str, a: Vec<Box<Cons>>) -> MakeStep {
    err(MakeError::WrongParams(label.to_string(), a))
}

fn not_a_number(text: &str) -> MakeStep {
    err(MakeError::NotANumber(read(text.to_string())))
}

/// Runs the steps to the end with the given outcomes, counting evaluations.
fn run(name: &str, a: &Vec<Box<Cons>>, outcomes: &[ArgOutcome]) -> (MakeStep, usize) {
    let mut evaluated = Vec::new();
    loop {
        match make_unit(name, a, &evaluated) {
            MakeStep::Eval(i) => {
                assert!(i >= evaluated.len() && i < a.len());
                evaluated.push(outcomes[evaluated.len()]);
            }
            r => return (r, evaluated.len()),
        }
    }
}

#[test]
fn pan_takes_a_numeral_level_in_place() {
    let a = args("(0.5 (saw 0 440))");
    assert_eq!(make_unit("pan", &a, &vec![]), MakeStep::Eval(1));
    assert_eq!(make_unit("pan", &a, &vec![ArgOutcome::Unit(7)]), done(UnitKind::Pan, vec![num("0.5"), PlanArg::Unit(7)]));
    let b = args("(lfo src)");
    assert_eq!(make_unit("pan", &b, &vec![]), MakeStep::Eval(0));
    assert_eq!(make_unit("pan", &b, &vec![ArgOutcome::Unit(3)]), MakeStep::Eval(1));
    assert_eq!(
        make_unit("pan", &b, &vec![ArgOutcome::Unit(3), ArgOutcome::Unit(4)]),
        done(UnitKind::Pan, vec![PlanArg::Unit(3), PlanArg::Unit(4)])
    );
    assert_eq!(make_unit("pan", &b, &vec![ArgOutcome::Other]), err(MakeError::NotAUnit));
    assert_eq!(make_unit("pan", &b, &vec![ArgOutcome::Failed(5)]), err(MakeError::Eval(5)));
    assert_eq!(make_unit("pan", &args("(1)"), &vec![]), wrong("pan", args("(1)")));
}

#[test]
fn clip_offset_gain_need_numerals() {
    assert_eq!(make_unit("clip", &args("(0 a x)"), &vec![]), not_a_number("a"));
    assert_eq!(make_unit("clip", &args("(a 1 x)"), &vec![]), not_a_number("a"));
    let a = args("(0 1 x)");
    assert_eq!(make_unit("clip", &a, &vec![]), MakeStep::Eval(2));
    assert_eq!(make_unit("clip", &a, &vec![ArgOutcome::Pattern(1)]), err(MakeError::NotAUnit));
    assert_eq!(
        make_unit("clip", &a, &vec![ArgOutcome::Unit(9)]),
        done(UnitKind::Clip, vec![num("0"), num("1"), PlanArg::Unit(9)])
    );
    assert_eq!(make_unit("clip", &args("(0 1)"), &vec![]), wrong("clip", args("(0 1)")));
    assert_eq!(make_unit("offset", &args("(x y)"), &vec![]), not_a_number("x"));
    assert_eq!(make_unit("clip", &args("(0 (f 1) x)"), &vec![]), not_a_number("(f 1)"));
    assert_eq!(make_unit("offset", &args("(2 y)"), &vec![ArgOutcome::Unit(1)]), done(UnitKind::Offset, vec![num("2"), PlanArg::Unit(1)]));
    assert_eq!(make_unit("gain", &args("(0.1 y)"), &vec![ArgOutcome::Failed(4)]), err(MakeError::Eval(4)));
    assert_eq!(make_unit("gain", &args("(0.1 y z)"), &vec![]), wrong("gain", args("(0.1 y z)")));
}

#[test]
fn add_and_multiply_take_any_number_of_units() {
    assert_eq!(make_unit("+", &args("()"), &vec![]), done(UnitKind::Add, vec![]));
    let a = args("(x y z)");
    let (r, n) = run("*", &a, &[ArgOutcome::Unit(1), ArgOutcome::Unit(2), ArgOutcome::Unit(3)]);
    assert_eq!(r, done(UnitKind::Multiply, vec![PlanArg::Unit(1), PlanArg::Unit(2), PlanArg::Unit(3)]));
    assert_eq!(n, 3);
    let (r, n) = run("+", &a, &[ArgOutcome::Unit(1), ArgOutcome::Other, ArgOutcome::Unit(3)]);
    assert_eq!((r, n), (err(MakeError::NotAUnit), 2));
    // A numeral is evaluated too: it is no literal slot.
    assert_eq!(make_unit("+", &args("(1)"), &vec![]), MakeStep::Eval(0));
}

#[test]
fn oscillators_and_their_labels() {
    assert_eq!(make_unit("rand", &args("(1 2)"), &vec![]), wrong("wavetable", args("(1 2)")));
    assert_eq!(make_unit("rand", &args("(1)"), &vec![ArgOutcome::Unit(8)]), done(UnitKind::Rand, vec![PlanArg::Unit(8)]));
    assert_eq!(make_unit("sine", &args("(0)"), &vec![]), wrong("sine", args("(0)")));
    assert_eq!(make_unit("tri", &args("(0)"), &vec![]), wrong("tri", args("(0)")));
    assert_eq!(make_unit("saw", &args("(0)"), &vec![]), wrong("tri", args("(0)")));
    assert_eq!(make_unit("pulse", &args("(0 1)"), &vec![]), wrong("pulse", args("(0 1)")));
    assert_eq!(make_unit("phase", &args("()"), &vec![]), wrong("phase", args("()")));
    assert_eq!(make_unit("wavetable", &args("(t)"), &vec![]), wrong("wavetable", args("(t)")));
    let (r, n) = run("pulse", &args("(0 440 0.5)"), &[ArgOutcome::Unit(1), ArgOutcome::Unit(2), ArgOutcome::Unit(3)]);
    assert_eq!(r, done(UnitKind::Pulse, vec![PlanArg::Unit(1), PlanArg::Unit(2), PlanArg::Unit(3)]));
    assert_eq!(n, 3);
    let (r, n) = run("saw", &args("(0 440)"), &[ArgOutcome::Failed(6), ArgOutcome::Unit(2)]);
    assert_eq!((r, n), (err(MakeError::Eval(6)), 1));
    let (r, _) = run("wavetable", &args("(t o)"), &[ArgOutcome::Unit(1), ArgOutcome::Unit(2)]);
    assert_eq!(r, done(UnitKind::WaveTable, vec![PlanArg::Unit(1), PlanArg::Unit(2)]));
    let (r, _) = run("phase", &args("(o)"), &[ArgOutcome::Unit(5)]);
    assert_eq!(r, done(UnitKind::Phase, vec![PlanArg::Unit(5)]));
}

#[test]
fn adsr_reports_evaluation_errors_as_wrong_calls() {
    assert_eq!(make_unit("adsr", &args("(a d s)"), &vec![]), wrong("asdr", args("(a d s)")));
    let a = args("(a d s r)");
    let (r, n) = run("adsr", &a, &[ArgOutcome::Unit(1), ArgOutcome::Failed(9)]);
    assert_eq!((r, n), (wrong("adsr", args("(a d s r)")), 2));
    let (r, _) = run("adsr", &a, &[ArgOutcome::Pattern(1)]);
    assert_eq!(r, err(MakeError::NotAUnit));
    let (r, n) = run("adsr", &a, &[ArgOutcome::Unit(1), ArgOutcome::Unit(2), ArgOutcome::Unit(3), ArgOutcome::Unit(4)]);
    assert_eq!(r, done(UnitKind::Adsr, vec![PlanArg::Unit(1), PlanArg::Unit(2), PlanArg::Unit(3), PlanArg::Unit(4)]));
    assert_eq!(n, 4);
}

#[test]
fn seq_wants_a_pattern_first() {
    let a = args("(p o e)");
    assert_eq!(run("seq", &a, &[ArgOutcome::Unit(1)]).0, err(MakeError::NotAPattern));
    assert_eq!(run("seq", &a, &[ArgOutcome::Other]).0, err(MakeError::NotAPattern));
    assert_eq!(run("seq", &a, &[ArgOutcome::Failed(2)]).0, err(MakeError::Eval(2)));
    assert_eq!(run("seq", &a, &[ArgOutcome::Pattern(1), ArgOutcome::Pattern(2)]).0, err(MakeError::NotAUnit));
    assert_eq!(
        run("seq", &a, &[ArgOutcome::Pattern(1), ArgOutcome::Unit(2), ArgOutcome::Unit(3)]).0,
        done(UnitKind::Sequencer, vec![PlanArg::Pattern(1), PlanArg::Unit(2), PlanArg::Unit(3)])
    );
    assert_eq!(make_unit("seq", &args("(p o)"), &vec![]), wrong("seq", args("(p o)")));
}

#[test]
fn unknown_names_are_refused() {
    assert_eq!(make_unit("foo", &args("(1 2)"), &vec![]), err(MakeError::Unknown("foo".to_string())));
    assert_eq!(make_unit("", &args("()"), &vec![]), err(MakeError::Unknown(String::new())));
}

#[test]
fn event_shapes() {
    let ev = |s: &str| make_event(&read(s.to_string()));
    assert_eq!(ev("loop"), Ok(EventShape::Loop));
    assert_eq!(ev("loops"), Err(EvError::Unknown("loops".to_string())));
    assert_eq!(ev("(c4 8)"), Ok(EventShape::Note("c4".to_string(), Some("8".to_string()))));
    assert_eq!(ev("(r x)"), Ok(EventShape::Note("r".to_string(), None)));
    assert_eq!(ev("(c4 2 3)"), Ok(EventShape::Note("c4".to_string(), Some("2".to_string()))));
    assert_eq!(ev("(c4)"), Ok(EventShape::NoLength));
    assert_eq!(ev("(1 2)"), Err(EvError::WrongParams(read("(1 2)".to_string()))));
    assert_eq!(ev("((a) 2)"), Err(EvError::WrongParams(read("((a) 2)".to_string()))));
    assert_eq!(ev("4"), Err(EvError::Malformed(Cons::Number("4".to_string()))));
    assert_eq!(ev("()"), Err(EvError::Malformed(Cons::Nil)));
}
