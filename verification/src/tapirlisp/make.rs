//! Making units and events from expressions.
//!
//! Making a unit evaluates some of its arguments, and the evaluator lives
//! with the caller; so `make_unit` is a step: given the outcomes of the
//! evaluations it asked for so far, it asks for the next one or gives the
//! finished plan (or the error).  The caller evaluates, appends the outcome,
//! and asks again.
use vstd::prelude::*;

use crate::conflisp::{copy_cons, Cons, SExp};
use crate::text::str_eq;

verus! {

/// The units that `(name args...)` can make.
#[derive(Debug, Clone, Copy, PartialEq, Eq, Structural)]
pub enum UnitKind {
    Pan,
    Clip,
    Offset,
    Gain,
    Add,
    Multiply,
    Rand,
    Sine,
    Tri,
    Saw,
    Pulse,
    Phase,
    WaveTable,
    Adsr,
    Sequencer,
}

/// What an argument must be: a numeral written in place; a numeral in
/// place, or else an expression that evaluates to a unit; an expression that
/// evaluates to a unit; one that evaluates to a pattern.
#[derive(Debug, Clone, Copy, PartialEq, Eq, Structural)]
pub enum Slot {
    Numeral,
    NumeralOrUnit,
    Unit,
    Pattern,
}

/// What evaluating an argument gave, as the evaluator reports it: a unit or
/// a pattern (by a handle that the evaluator keeps), another kind of value,
/// or an error (by handle).
#[derive(Debug, Clone, Copy, PartialEq, Eq, Structural)]
pub enum ArgOutcome {
    Unit(u64),
    Pattern(u64),
    Other,
    Failed(u64),
}

/// One argument of a unit to build: a numeral as written, or a unit or
/// pattern by handle.
#[derive(Debug, Clone, PartialEq, Eq)]
pub enum PlanArg {
    Numeral(String),
    Unit(u64),
    Pattern(u64),
}

pub enum PlanArgView {
    Numeral(Seq<char>),
    Unit(u64),
    Pattern(u64),
}

impl View for PlanArg {
    type V = PlanArgView;

    open spec fn view(&self) -> PlanArgView {
        match self {
            PlanArg::Numeral(t) => PlanArgView::Numeral(t@),
            PlanArg::Unit(h) => PlanArgView::Unit(*h),
            PlanArg::Pattern(h) => PlanArgView::Pattern(*h),
        }
    }
}

/// A unit to build: its kind and its arguments, one per argument written.
#[derive(Debug, Clone, PartialEq, Eq)]
pub struct UnitPlan {
    pub kind: UnitKind,
    pub args: Vec<PlanArg>,
}

/// Why a unit cannot be made: the wrong number of arguments (with the name
/// the message gives, and the arguments), an argument that is not a unit,
/// this argument is not a numeral, an argument that is not a pattern, an
/// unknown name, or the evaluator's own error (by handle).
#[derive(Debug, PartialEq, Eq)]
pub enum MakeError {
    WrongParams(String, Vec<Box<Cons>>),
    NotAUnit,
    NotANumber(Cons),
    NotAPattern,
    Unknown(String),
    Eval(u64),
}

pub enum MakeErrorView {
    WrongParams(Seq<char>, Seq<SExp>),
    NotAUnit,
    NotANumber(SExp),
    NotAPattern,
    Unknown(Seq<char>),
    Eval(u64),
}

impl View for MakeError {
    type V = MakeErrorView;

    open spec fn view(&self) -> MakeErrorView {
        match self {
            MakeError::WrongParams(s, a) => MakeErrorView::WrongParams(s@, args_view(a@)),
            MakeError::NotAUnit => MakeErrorView::NotAUnit,
            MakeError::NotANumber(c) => MakeErrorView::NotANumber(c@),
            MakeError::NotAPattern => MakeErrorView::NotAPattern,
            MakeError::Unknown(s) => MakeErrorView::Unknown(s@),
            MakeError::Eval(h) => MakeErrorView::Eval(*h),
        }
    }
}

/// The answer of one step: evaluate the argument at this position next, or
/// done.
#[derive(Debug, PartialEq, Eq)]
pub enum MakeStep {
    Eval(usize),
    Done(Result<UnitPlan, MakeError>),
}

pub enum StepView {
    Eval(int),
    Done(Result<(UnitKind, Seq<PlanArgView>), MakeErrorView>),
}

pub open spec fn step_view(r: MakeStep) -> StepView {
    match r {
        MakeStep::Eval(i) => StepView::Eval(i as int),
        MakeStep::Done(Ok(p)) => StepView::Done(Ok((p.kind, p.args@.map_values(|a: PlanArg| a@)))),
        MakeStep::Done(Err(e)) => StepView::Done(Err(e@)),
    }
}

pub open spec fn args_view(args: Seq<Box<Cons>>) -> Seq<SExp> {
    args.map_values(|b: Box<Cons>| b@)
}

/// The kind of unit that a name makes.
pub open spec fn unit_kind(name: Seq<char>) -> Option<UnitKind> {
    if name == "pan"@ {
        Some(UnitKind::Pan)
    } else if name == "clip"@ {
        Some(UnitKind::Clip)
    } else if name == "offset"@ {
        Some(UnitKind::Offset)
    } else if name == "gain"@ {
        Some(UnitKind::Gain)
    } else if name == "+"@ {
        Some(UnitKind::Add)
    } else if name == "*"@ {
        Some(UnitKind::Multiply)
    } else if name == "rand"@ {
        Some(UnitKind::Rand)
    } else if name == "sine"@ {
        Some(UnitKind::Sine)
    } else if name == "tri"@ {
        Some(UnitKind::Tri)
    } else if name == "saw"@ {
        Some(UnitKind::Saw)
    } else if name == "pulse"@ {
        Some(UnitKind::Pulse)
    } else if name == "phase"@ {
        Some(UnitKind::Phase)
    } else if name == "wavetable"@ {
        Some(UnitKind::WaveTable)
    } else if name == "adsr"@ {
        Some(UnitKind::Adsr)
    } else if name == "seq"@ {
        Some(UnitKind::Sequencer)
    } else {
        None
    }
}

/// How many arguments a kind takes; `+` and `*` take any number.
pub open spec fn arity(kind: UnitKind) -> Option<nat> {
    match kind {
        UnitKind::Pan => Some(2),
        UnitKind::Clip => Some(3),
        UnitKind::Offset => Some(2),
        UnitKind::Gain => Some(2),
        UnitKind::Add => None,
        UnitKind::Multiply => None,
        UnitKind::Rand => Some(1),
        UnitKind::Sine => Some(2),
        UnitKind::Tri => Some(2),
        UnitKind::Saw => Some(2),
        UnitKind::Pulse => Some(3),
        UnitKind::Phase => Some(1),
        UnitKind::WaveTable => Some(2),
        UnitKind::Adsr => Some(4),
        UnitKind::Sequencer => Some(3),
    }
}

/// The name that a wrong number of arguments is reported under.  It is not
/// always the unit's own: `rand` reports `wavetable`, `saw` reports `tri`,
/// and `adsr` reports `asdr`.
pub open spec fn arity_label(kind: UnitKind) -> Seq<char> {
    match kind {
        UnitKind::Pan => "pan"@,
        UnitKind::Clip => "clip"@,
        UnitKind::Offset => "offset"@,
        UnitKind::Gain => "gain"@,
        UnitKind::Add => "+"@,
        UnitKind::Multiply => "*"@,
        UnitKind::Rand => "wavetable"@,
        UnitKind::Sine => "sine"@,
        UnitKind::Tri => "tri"@,
        UnitKind::Saw => "tri"@,
        UnitKind::Pulse => "pulse"@,
        UnitKind::Phase => "phase"@,
        UnitKind::WaveTable => "wavetable"@,
        UnitKind::Adsr => "asdr"@,
        UnitKind::Sequencer => "seq"@,
    }
}

/// What argument `i` of a kind must be.  `pan`'s level is a numeral or a
/// unit, `clip`'s bounds and the amounts of `offset` and `gain` are numerals,
/// `seq`'s first argument is a pattern; every other argument is a unit.
pub open spec fn slot(kind: UnitKind, i: int) -> Slot {
    match kind {
        UnitKind::Pan => if i == 0 { Slot::NumeralOrUnit } else { Slot::Unit },
        UnitKind::Clip => if i < 2 { Slot::Numeral } else { Slot::Unit },
        UnitKind::Offset => if i == 0 { Slot::Numeral } else { Slot::Unit },
        UnitKind::Gain => if i == 0 { Slot::Numeral } else { Slot::Unit },
        UnitKind::Sequencer => if i == 0 { Slot::Pattern } else { Slot::Unit },
        _ => Slot::Unit,
    }
}

/// What an evaluated argument gives.  A pattern slot takes a pattern and
/// refuses anything else as not a pattern; every other slot takes a unit and
/// refuses anything else as not a unit.  An evaluation error is passed on,
/// but for `adsr`, which reports it as a wrong call of `adsr`.
pub open spec fn outcome_arg(kind: UnitKind, args: Seq<SExp>, s: Slot, o: ArgOutcome) -> Result<
    PlanArgView,
    MakeErrorView,
> {
    match o {
        ArgOutcome::Failed(e) => if s != Slot::Pattern && kind == UnitKind::Adsr {
            Err(MakeErrorView::WrongParams("adsr"@, args))
        } else {
            Err(MakeErrorView::Eval(e))
        },
        ArgOutcome::Unit(h) => if s == Slot::Pattern {
            Err(MakeErrorView::NotAPattern)
        } else {
            Ok(PlanArgView::Unit(h))
        },
        ArgOutcome::Pattern(h) => if s == Slot::Pattern {
            Ok(PlanArgView::Pattern(h))
        } else {
            Err(MakeErrorView::NotAUnit)
        },
        ArgOutcome::Other => if s == Slot::Pattern {
            Err(MakeErrorView::NotAPattern)
        } else {
            Err(MakeErrorView::NotAUnit)
        },
    }
}

pub open spec fn numeral_of(e: SExp) -> Option<Seq<char>> {
    match e {
        SExp::Number(t) => Some(t),
        _ => None,
    }
}

/// The arguments from position `i` on, with `k` evaluations used so far and
/// `acc` the plan of the arguments before `i`: numerals are taken in place,
/// the others are evaluated in order; the first failure ends the walk.
pub open spec fn walk(
    kind: UnitKind,
    args: Seq<SExp>,
    ev: Seq<ArgOutcome>,
    i: int,
    k: int,
    acc: Seq<PlanArgView>,
) -> StepView
    decreases args.len() - i,
{
    if i < 0 || i >= args.len() {
        StepView::Done(Ok((kind, acc)))
    } else {
        let s = slot(kind, i);
        let lit = numeral_of(args[i]);
        if (s == Slot::Numeral || s == Slot::NumeralOrUnit) && lit is Some {
            walk(kind, args, ev, i + 1, k, acc.push(PlanArgView::Numeral(lit.unwrap())))
        } else if s == Slot::Numeral {
            StepView::Done(Err(MakeErrorView::NotANumber(args[i])))
        } else if k < 0 || k >= ev.len() {
            StepView::Eval(i)
        } else {
            match outcome_arg(kind, args, s, ev[k]) {
                Ok(a) => walk(kind, args, ev, i + 1, k + 1, acc.push(a)),
                Err(e) => StepView::Done(Err(e)),
            }
        }
    }
}

/// One step of making a unit of a kind: a wrong number of arguments is
/// refused before anything is evaluated; else the arguments are walked.
pub open spec fn kind_step(kind: UnitKind, args: Seq<SExp>, ev: Seq<ArgOutcome>) -> StepView {
    if arity(kind) is Some && args.len() != arity(kind).unwrap() {
        StepView::Done(Err(MakeErrorView::WrongParams(arity_label(kind), args)))
    } else {
        walk(kind, args, ev, 0, 0, Seq::empty())
    }
}

/// One step of making the unit `(name args...)`; an unknown name is
/// refused.
pub open spec fn make_unit_spec(name: Seq<char>, args: Seq<SExp>, ev: Seq<ArgOutcome>) -> StepView {
    match unit_kind(name) {
        Some(kind) => kind_step(kind, args, ev),
        None => StepView::Done(Err(MakeErrorView::Unknown(name))),
    }
}

/// A copy of the arguments.
fn copy_args(args: &Vec<Box<Cons>>) -> (r: Vec<Box<Cons>>)
    ensures
        args_view(r@) == args_view(args@),
{
    let mut r: Vec<Box<Cons>> = Vec::new();
    let mut i: usize = 0;
    while i < args.len()
        invariant
            i <= args.len(),
            args_view(r@) == args_view(args@).take(i as int),
        decreases args.len() - i,
    {
        let ghost before = r@;
        let c = copy_cons(&*args[i]);
        let b = Box::new(c);
        assert(b@ == args@[i as int]@);
        r.push(b);
        assert(r@ == before.push(b));
        assert(args_view(r@) =~= args_view(before).push(b@));
        assert(args_view(args@).take(i + 1) =~= args_view(args@).take(i as int).push(args_view(args@)[i as int]));
        i = i + 1;
        assert(args_view(r@) =~= args_view(args@).take(i as int));
    }
    assert(args_view(args@).take(i as int) =~= args_view(args@));
    r
}

fn slot_of(kind: UnitKind, i: usize) -> (r: Slot)
    ensures
        r == slot(kind, i as int),
{
    match kind {
        UnitKind::Pan => if i == 0 { Slot::NumeralOrUnit } else { Slot::Unit },
        UnitKind::Clip => if i < 2 { Slot::Numeral } else { Slot::Unit },
        UnitKind::Offset => if i == 0 { Slot::Numeral } else { Slot::Unit },
        UnitKind::Gain => if i == 0 { Slot::Numeral } else { Slot::Unit },
        UnitKind::Sequencer => if i == 0 { Slot::Pattern } else { Slot::Unit },
        _ => Slot::Unit,
    }
}

fn take_outcome(kind: UnitKind, args: &Vec<Box<Cons>>, s: Slot, o: ArgOutcome) -> (r: Result<PlanArg, MakeError>)
    ensures
        match r {
            Ok(a) => outcome_arg(kind, args_view(args@), s, o) == Ok::<PlanArgView, MakeErrorView>(a@),
            Err(e) => outcome_arg(kind, args_view(args@), s, o) == Err::<PlanArgView, MakeErrorView>(e@),
        },
{
    match o {
        ArgOutcome::Failed(e) => if s != Slot::Pattern && kind == UnitKind::Adsr {
            Err(MakeError::WrongParams("adsr".to_string(), copy_args(args)))
        } else {
            Err(MakeError::Eval(e))
        },
        ArgOutcome::Unit(h) => if s == Slot::Pattern {
            Err(MakeError::NotAPattern)
        } else {
            Ok(PlanArg::Unit(h))
        },
        ArgOutcome::Pattern(h) => if s == Slot::Pattern {
            Ok(PlanArg::Pattern(h))
        } else {
            Err(MakeError::NotAUnit)
        },
        ArgOutcome::Other => if s == Slot::Pattern {
            Err(MakeError::NotAPattern)
        } else {
            Err(MakeError::NotAUnit)
        },
    }
}

fn walk_args(kind: UnitKind, args: &Vec<Box<Cons>>, evaluated: &Vec<ArgOutcome>) -> (r: MakeStep)
    ensures
        step_view(r) == walk(kind, args_view(args@), evaluated@, 0, 0, Seq::empty()),
{
    let ghost av = args_view(args@);
    let mut acc: Vec<PlanArg> = Vec::new();
    let mut i: usize = 0;
    let mut k: usize = 0;
    assert(acc@.map_values(|a: PlanArg| a@) =~= Seq::<PlanArgView>::empty());
    while i < args.len()
        invariant
            av == args_view(args@),
            i <= args.len(),
            k <= i,
            walk(kind, av, evaluated@, i as int, k as int, acc@.map_values(|a: PlanArg| a@))
                == walk(kind, av, evaluated@, 0, 0, Seq::empty()),
        decreases args.len() - i,
    {
        let s = slot_of(kind, i);
        let a: &Cons = &*args[i];
        assert(av[i as int] == a@);
        let mut numeral: Option<String> = None;
        if s == Slot::Numeral || s == Slot::NumeralOrUnit {
            if let Cons::Number(t) = a {
                numeral = Some(t.clone());
            }
        }
        assert(numeral matches Some(t) ==> numeral_of(av[i as int]) == Some(t@));
        assert(numeral is None ==> !((s == Slot::Numeral || s == Slot::NumeralOrUnit)
            && numeral_of(av[i as int]) is Some));
        let ghost before = acc@.map_values(|a: PlanArg| a@);
        match numeral {
            Some(t) => {
                acc.push(PlanArg::Numeral(t));
                assert(acc@.map_values(|a: PlanArg| a@) =~= before.push(
                    PlanArgView::Numeral(numeral_of(av[i as int]).unwrap()),
                ));
                i = i + 1;
            },
            None => {
                if s == Slot::Numeral {
                    return MakeStep::Done(Err(MakeError::NotANumber(copy_cons(a))));
                }
                if k >= evaluated.len() {
                    return MakeStep::Eval(i);
                }
                match take_outcome(kind, args, s, evaluated[k]) {
                    Ok(p) => {
                        acc.push(p);
                        assert(acc@.map_values(|a: PlanArg| a@) =~= before.push(p@));
                        i = i + 1;
                        k = k + 1;
                    },
                    Err(e) => {
                        return MakeStep::Done(Err(e));
                    },
                }
            },
        }
    }
    MakeStep::Done(Ok(UnitPlan { kind: kind, args: acc }))
}

fn wrong_params(label: &str, args: &Vec<Box<Cons>>) -> (r: MakeStep)
    ensures
        step_view(r) == StepView::Done(Err(MakeErrorView::WrongParams(label@, args_view(args@)))),
{
    MakeStep::Done(Err(MakeError::WrongParams(label.to_string(), copy_args(args))))
}

/// `pan`: a level (a numeral, or else a unit) and a source unit.
fn make_pan(args: &Vec<Box<Cons>>, evaluated: &Vec<ArgOutcome>) -> (r: MakeStep)
    ensures
        step_view(r) == kind_step(UnitKind::Pan, args_view(args@), evaluated@),
{
    if args.len() == 2 {
        walk_args(UnitKind::Pan, args, evaluated)
    } else {
        wrong_params("pan", args)
    }
}

/// `clip`: two numerals (minimum and maximum) and a source unit.
fn make_clip(args: &Vec<Box<Cons>>, evaluated: &Vec<ArgOutcome>) -> (r: MakeStep)
    ensures
        step_view(r) == kind_step(UnitKind::Clip, args_view(args@), evaluated@),
{
    if args.len() == 3 {
        walk_args(UnitKind::Clip, args, evaluated)
    } else {
        wrong_params("clip", args)
    }
}

/// `offset`: a numeral and a source unit.
fn make_offset(args: &Vec<Box<Cons>>, evaluated: &Vec<ArgOutcome>) -> (r: MakeStep)
    ensures
        step_view(r) == kind_step(UnitKind::Offset, args_view(args@), evaluated@),
{
    if args.len() == 2 {
        walk_args(UnitKind::Offset, args, evaluated)
    } else {
        wrong_params("offset", args)
    }
}

/// `gain`: a numeral and a source unit.
fn make_gain(args: &Vec<Box<Cons>>, evaluated: &Vec<ArgOutcome>) -> (r: MakeStep)
    ensures
        step_view(r) == kind_step(UnitKind::Gain, args_view(args@), evaluated@),
{
    if args.len() == 2 {
        walk_args(UnitKind::Gain, args, evaluated)
    } else {
        wrong_params("gain", args)
    }
}

/// `+`: any number of units.
fn make_add(args: &Vec<Box<Cons>>, evaluated: &Vec<ArgOutcome>) -> (r: MakeStep)
    ensures
        step_view(r) == kind_step(UnitKind::Add, args_view(args@), evaluated@),
{
    walk_args(UnitKind::Add, args, evaluated)
}

/// `*`: any number of units.
fn make_multiply(args: &Vec<Box<Cons>>, evaluated: &Vec<ArgOutcome>) -> (r: MakeStep)
    ensures
        step_view(r) == kind_step(UnitKind::Multiply, args_view(args@), evaluated@),
{
    walk_args(UnitKind::Multiply, args, evaluated)
}

/// `rand`: one unit, whose value seeds the generator.
fn make_rand(args: &Vec<Box<Cons>>, evaluated: &Vec<ArgOutcome>) -> (r: MakeStep)
    ensures
        step_view(r) == kind_step(UnitKind::Rand, args_view(args@), evaluated@),
{
    if args.len() == 1 {
        walk_args(UnitKind::Rand, args, evaluated)
    } else {
        wrong_params("wavetable", args)
    }
}

/// `sine`: an initial phase and a frequency, both units.
fn make_sine(args: &Vec<Box<Cons>>, evaluated: &Vec<ArgOutcome>) -> (r: MakeStep)
    ensures
        step_view(r) == kind_step(UnitKind::Sine, args_view(args@), evaluated@),
{
    if args.len() == 2 {
        walk_args(UnitKind::Sine, args, evaluated)
    } else {
        wrong_params("sine", args)
    }
}

/// `tri`: an initial phase and a frequency, both units.
fn make_tri(args: &Vec<Box<Cons>>, evaluated: &Vec<ArgOutcome>) -> (r: MakeStep)
    ensures
        step_view(r) == kind_step(UnitKind::Tri, args_view(args@), evaluated@),
{
    if args.len() == 2 {
        walk_args(UnitKind::Tri, args, evaluated)
    } else {
        wrong_params("tri", args)
    }
}

/// `saw`: an initial phase and a frequency, both units.
fn make_saw(args: &Vec<Box<Cons>>, evaluated: &Vec<ArgOutcome>) -> (r: MakeStep)
    ensures
        step_view(r) == kind_step(UnitKind::Saw, args_view(args@), evaluated@),
{
    if args.len() == 2 {
        walk_args(UnitKind::Saw, args, evaluated)
    } else {
        wrong_params("tri", args)
    }
}

/// `pulse`: an initial phase, a frequency and a duty, all units.
fn make_pulse(args: &Vec<Box<Cons>>, evaluated: &Vec<ArgOutcome>) -> (r: MakeStep)
    ensures
        step_view(r) == kind_step(UnitKind::Pulse, args_view(args@), evaluated@),
{
    if args.len() == 3 {
        walk_args(UnitKind::Pulse, args, evaluated)
    } else {
        wrong_params("pulse", args)
    }
}

/// `phase`: one oscillator unit.
fn make_phase(args: &Vec<Box<Cons>>, evaluated: &Vec<ArgOutcome>) -> (r: MakeStep)
    ensures
        step_view(r) == kind_step(UnitKind::Phase, args_view(args@), evaluated@),
{
    if args.len() == 1 {
        walk_args(UnitKind::Phase, args, evaluated)
    } else {
        wrong_params("phase", args)
    }
}

/// `wavetable`: a table unit and an oscillator unit.
fn make_wavetable(args: &Vec<Box<Cons>>, evaluated: &Vec<ArgOutcome>) -> (r: MakeStep)
    ensures
        step_view(r) == kind_step(UnitKind::WaveTable, args_view(args@), evaluated@),
{
    if args.len() == 2 {
        walk_args(UnitKind::WaveTable, args, evaluated)
    } else {
        wrong_params("wavetable", args)
    }
}

/// `adsr`: attack, decay, sustain and release, all units; an evaluation error is reported as a wrong call of `adsr`.
fn make_adsr_eg(args: &Vec<Box<Cons>>, evaluated: &Vec<ArgOutcome>) -> (r: MakeStep)
    ensures
        step_view(r) == kind_step(UnitKind::Adsr, args_view(args@), evaluated@),
{
    if args.len() == 4 {
        walk_args(UnitKind::Adsr, args, evaluated)
    } else {
        wrong_params("asdr", args)
    }
}

/// `seq`: a pattern, an oscillator unit and an envelope unit.
fn make_seq(args: &Vec<Box<Cons>>, evaluated: &Vec<ArgOutcome>) -> (r: MakeStep)
    ensures
        step_view(r) == kind_step(UnitKind::Sequencer, args_view(args@), evaluated@),
{
    if args.len() == 3 {
        walk_args(UnitKind::Sequencer, args, evaluated)
    } else {
        wrong_params("seq", args)
    }
}

/// One step of making the unit `(name args...)`.  `evaluated` holds the
/// outcomes of the evaluations asked for so far, in order.  The answer is the
/// position of the argument to evaluate next, or the plan of the unit to
/// build, or why it cannot be built.
pub fn make_unit(name: &str, args: &Vec<Box<Cons>>, evaluated: &Vec<ArgOutcome>) -> (r: MakeStep)
    ensures
        step_view(r) == make_unit_spec(name@, args_view(args@), evaluated@),
{
    if str_eq(name, "pan") {
        make_pan(args, evaluated)
    } else if str_eq(name, "clip") {
        make_clip(args, evaluated)
    } else if str_eq(name, "offset") {
        make_offset(args, evaluated)
    } else if str_eq(name, "gain") {
        make_gain(args, evaluated)
    } else if str_eq(name, "+") {
        make_add(args, evaluated)
    } else if str_eq(name, "*") {
        make_multiply(args, evaluated)
    } else if str_eq(name, "rand") {
        make_rand(args, evaluated)
    } else if str_eq(name, "sine") {
        make_sine(args, evaluated)
    } else if str_eq(name, "tri") {
        make_tri(args, evaluated)
    } else if str_eq(name, "saw") {
        make_saw(args, evaluated)
    } else if str_eq(name, "pulse") {
        make_pulse(args, evaluated)
    } else if str_eq(name, "phase") {
        make_phase(args, evaluated)
    } else if str_eq(name, "wavetable") {
        make_wavetable(args, evaluated)
    } else if str_eq(name, "adsr") {
        make_adsr_eg(args, evaluated)
    } else if str_eq(name, "seq") {
        make_seq(args, evaluated)
    } else {
        MakeStep::Done(Err(MakeError::Unknown(name.to_string())))
    }
}

/// The shape of an event expression: a note `(name len ...)` with its
/// length as written when that is a numeral (else the default length
/// applies); a note without a length, which makes no event; or `loop`.
#[derive(Debug, Clone, PartialEq, Eq)]
pub enum EventShape {
    Note(String, Option<String>),
    NoLength,
    Loop,
}

pub enum EventShapeView {
    Note(Seq<char>, Option<Seq<char>>),
    NoLength,
    Loop,
}

/// Why an expression is no event: a list that does not start with a name,
/// a name other than `loop`, or neither a list nor a name.
#[derive(Debug, PartialEq, Eq)]
pub enum EvError {
    WrongParams(Cons),
    Unknown(String),
    Malformed(Cons),
}

pub enum EvErrorView {
    WrongParams(SExp),
    Unknown(Seq<char>),
    Malformed(SExp),
}

pub open spec fn event_view(r: Result<EventShape, EvError>) -> Result<EventShapeView, EvErrorView> {
    match r {
        Ok(EventShape::Note(n, l)) => Ok(
            EventShapeView::Note(
                n@,
                match l {
                    Some(t) => Some(t@),
                    None => None,
                },
            ),
        ),
        Ok(EventShape::NoLength) => Ok(EventShapeView::NoLength),
        Ok(EventShape::Loop) => Ok(EventShapeView::Loop),
        Err(EvError::WrongParams(c)) => Err(EvErrorView::WrongParams(c@)),
        Err(EvError::Unknown(n)) => Err(EvErrorView::Unknown(n@)),
        Err(EvError::Malformed(c)) => Err(EvErrorView::Malformed(c@)),
    }
}

/// The shape of event expression `e`: `(name len ...)` is a note (its
/// length kept when it is a numeral), `(name)` or `(name . x)` with `x` no
/// cell is a note without length, a list whose head is no name is refused,
/// the name `loop` is a loop, any other name is unknown, and anything else
/// is malformed.
pub open spec fn event_shape_spec(e: SExp) -> Result<EventShapeView, EvErrorView> {
    match e {
        SExp::Cons(name, cdr) => match *name {
            SExp::Symbol(n) => match *cdr {
                SExp::Cons(len, _) => Ok(EventShapeView::Note(n, numeral_of(*len))),
                _ => Ok(EventShapeView::NoLength),
            },
            _ => Err(EvErrorView::WrongParams(e)),
        },
        SExp::Symbol(n) => if n == "loop"@ {
            Ok(EventShapeView::Loop)
        } else {
            Err(EvErrorView::Unknown(n))
        },
        _ => Err(EvErrorView::Malformed(e)),
    }
}

/// The shape of event expression `e`; turning it into timed events (the
/// note's pitch and the length as a position) is up to the caller.
pub fn make_event(e: &Cons) -> (r: Result<EventShape, EvError>)
    ensures
        event_view(r) == event_shape_spec(e@),
{
    proof {
        reveal_with_fuel(crate::conflisp::cons_view, 3);
    }
    match e {
        Cons::Cons(name, cdr) => match &**name {
            Cons::Symbol(n) => match &**cdr {
                Cons::Cons(len, _) => {
                    let l = match &**len {
                        Cons::Number(t) => Some(t.clone()),
                        _ => None,
                    };
                    Ok(EventShape::Note(n.clone(), l))
                },
                _ => Ok(EventShape::NoLength),
            },
            _ => Err(EvError::WrongParams(copy_cons(e))),
        },
        Cons::Symbol(name) => if str_eq(name.as_str(), "loop") {
            Ok(EventShape::Loop)
        } else {
            Err(EvError::Unknown(name.clone()))
        },
        _ => Err(EvError::Malformed(copy_cons(e))),
    }
}

/// Argument `m` of a plan fits its slot: a numeral slot holds the numeral
/// written there; a numeral-or-unit slot the numeral if one is written, else
/// a unit; a unit slot a unit; a pattern slot a pattern.
pub open spec fn fits(kind: UnitKind, a: SExp, m: int, p: PlanArgView) -> bool {
    match slot(kind, m) {
        Slot::Numeral => numeral_of(a) is Some && p == PlanArgView::Numeral(numeral_of(a).unwrap()),
        Slot::NumeralOrUnit => if numeral_of(a) is Some {
            p == PlanArgView::Numeral(numeral_of(a).unwrap())
        } else {
            p is Unit
        },
        Slot::Unit => p is Unit,
        Slot::Pattern => p is Pattern,
    }
}

/// Argument `j` is one that is evaluated: not a numeral slot, and not a
/// numeral-or-unit slot with a numeral written.
pub open spec fn is_evaluated(kind: UnitKind, args: Seq<SExp>, j: int) -> bool {
    &&& slot(kind, j) != Slot::Numeral
    &&& !(slot(kind, j) == Slot::NumeralOrUnit && numeral_of(args[j]) is Some)
}

proof fn lemma_walk_eval(
    kind: UnitKind,
    args: Seq<SExp>,
    ev: Seq<ArgOutcome>,
    i: int,
    k: int,
    acc: Seq<PlanArgView>,
)
    requires
        0 <= k <= i,
    ensures
        walk(kind, args, ev, i, k, acc) matches StepView::Eval(j) ==> {
            &&& ev.len() <= j < args.len()
            &&& i <= j
            &&& is_evaluated(kind, args, j)
        },
    decreases args.len() - i,
{
    if 0 <= i < args.len() {
        let s = slot(kind, i);
        let lit = numeral_of(args[i]);
        if (s == Slot::Numeral || s == Slot::NumeralOrUnit) && lit is Some {
            lemma_walk_eval(kind, args, ev, i + 1, k, acc.push(PlanArgView::Numeral(lit.unwrap())));
        } else if s == Slot::Numeral {
        } else if k < 0 || k >= ev.len() {
        } else {
            if let Ok(a) = outcome_arg(kind, args, s, ev[k]) {
                lemma_walk_eval(kind, args, ev, i + 1, k + 1, acc.push(a));
            }
        }
    }
}

proof fn lemma_walk_done(
    kind: UnitKind,
    args: Seq<SExp>,
    ev: Seq<ArgOutcome>,
    i: int,
    k: int,
    acc: Seq<PlanArgView>,
)
    requires
        0 <= i <= args.len(),
        acc.len() == i,
        forall|m: int| 0 <= m < i ==> fits(kind, args[m], m, #[trigger] acc[m]),
    ensures
        walk(kind, args, ev, i, k, acc) matches StepView::Done(Ok((kd, p))) ==> {
            &&& kd == kind
            &&& p.len() == args.len()
            &&& forall|m: int| 0 <= m < p.len() ==> fits(kind, args[m], m, #[trigger] p[m])
        },
    decreases args.len() - i,
{
    if i < args.len() {
        let s = slot(kind, i);
        let lit = numeral_of(args[i]);
        if (s == Slot::Numeral || s == Slot::NumeralOrUnit) && lit is Some {
            let acc2 = acc.push(PlanArgView::Numeral(lit.unwrap()));
            assert forall|m: int| 0 <= m < i + 1 implies fits(kind, args[m], m, #[trigger] acc2[m]) by {
                if m < i {
                    assert(acc2[m] == acc[m]);
                }
            }
            lemma_walk_done(kind, args, ev, i + 1, k, acc2);
        } else if s == Slot::Numeral {
        } else if k < 0 || k >= ev.len() {
        } else {
            if let Ok(a) = outcome_arg(kind, args, s, ev[k]) {
                let acc2 = acc.push(a);
                assert forall|m: int| 0 <= m < i + 1 implies fits(kind, args[m], m, #[trigger] acc2[m]) by {
                    if m < i {
                        assert(acc2[m] == acc[m]);
                    }
                }
                lemma_walk_done(kind, args, ev, i + 1, k + 1, acc2);
            }
        }
    }
}

/// A name that makes no unit is refused as unknown, whatever the
/// arguments.
pub proof fn law_unknown_name(name: Seq<char>, args: Seq<SExp>, ev: Seq<ArgOutcome>)
    requires
        unit_kind(name) is None,
    ensures
        make_unit_spec(name, args, ev) == StepView::Done(Err::<(UnitKind, Seq<PlanArgView>), MakeErrorView>(
            MakeErrorView::Unknown(name),
        )),
{
}

/// A wrong number of arguments is refused before any argument is
/// evaluated, under the kind's label.
pub proof fn law_arity_first(kind: UnitKind, args: Seq<SExp>, ev: Seq<ArgOutcome>)
    requires
        arity(kind) is Some,
        args.len() != arity(kind).unwrap(),
    ensures
        kind_step(kind, args, ev) == StepView::Done(Err::<(UnitKind, Seq<PlanArgView>), MakeErrorView>(
            MakeErrorView::WrongParams(arity_label(kind), args),
        )),
{
}

/// Only arguments that are not taken as written are evaluated, each at
/// most once and in order: a step that asks for argument `j` has been given
/// no more outcomes than `j`.  So the caller's loop ends after at most as
/// many evaluations as there are arguments.
pub proof fn law_evaluation_requests(kind: UnitKind, args: Seq<SExp>, ev: Seq<ArgOutcome>)
    ensures
        kind_step(kind, args, ev) matches StepView::Eval(j) ==> {
            &&& ev.len() <= j < args.len()
            &&& is_evaluated(kind, args, j)
        },
{
    lemma_walk_eval(kind, args, ev, 0, 0, Seq::empty());
}

/// A finished plan has the kind asked for and one argument per argument
/// written, each fitting its slot.
pub proof fn law_plan_fits(kind: UnitKind, args: Seq<SExp>, ev: Seq<ArgOutcome>)
    ensures
        kind_step(kind, args, ev) matches StepView::Done(Ok((kd, p))) ==> {
            &&& kd == kind
            &&& p.len() == args.len()
            &&& forall|m: int| 0 <= m < p.len() ==> fits(kind, args[m], m, #[trigger] p[m])
        },
{
    lemma_walk_done(kind, args, ev, 0, 0, Seq::empty());
}

/// The names of the units: each of the fifteen names makes the unit of its
/// own kind.
pub proof fn law_unit_names()
    ensures
        unit_kind("pan"@) == Some(UnitKind::Pan),
        unit_kind("clip"@) == Some(UnitKind::Clip),
        unit_kind("offset"@) == Some(UnitKind::Offset),
        unit_kind("gain"@) == Some(UnitKind::Gain),
        unit_kind("+"@) == Some(UnitKind::Add),
        unit_kind("*"@) == Some(UnitKind::Multiply),
        unit_kind("rand"@) == Some(UnitKind::Rand),
        unit_kind("sine"@) == Some(UnitKind::Sine),
        unit_kind("tri"@) == Some(UnitKind::Tri),
        unit_kind("saw"@) == Some(UnitKind::Saw),
        unit_kind("pulse"@) == Some(UnitKind::Pulse),
        unit_kind("phase"@) == Some(UnitKind::Phase),
        unit_kind("wavetable"@) == Some(UnitKind::WaveTable),
        unit_kind("adsr"@) == Some(UnitKind::Adsr),
        unit_kind("seq"@) == Some(UnitKind::Sequencer),
{
    broadcast use vstd::string::group_string_axioms;

    reveal_strlit("pan");
    reveal_strlit("clip");
    reveal_strlit("offset");
    reveal_strlit("gain");
    reveal_strlit("+");
    reveal_strlit("*");
    reveal_strlit("rand");
    reveal_strlit("sine");
    reveal_strlit("tri");
    reveal_strlit("saw");
    reveal_strlit("pulse");
    reveal_strlit("phase");
    reveal_strlit("wavetable");
    reveal_strlit("adsr");
    reveal_strlit("seq");
    assert("pan"@.len() == 3);
    assert("clip"@.len() == 4);
    assert("offset"@.len() == 6);
    assert("gain"@.len() == 4);
    assert("+"@.len() == 1);
    assert("*"@.len() == 1);
    assert("rand"@.len() == 4);
    assert("sine"@.len() == 4);
    assert("tri"@.len() == 3);
    assert("saw"@.len() == 3);
    assert("pulse"@.len() == 5);
    assert("phase"@.len() == 5);
    assert("wavetable"@.len() == 9);
    assert("adsr"@.len() == 4);
    assert("seq"@.len() == 3);
    assert("gain"@[0] != "clip"@[0]);
    assert("*"@[0] != "+"@[0]);
    assert("rand"@[0] != "clip"@[0]);
    assert("rand"@[0] != "gain"@[0]);
    assert("sine"@[0] != "clip"@[0]);
    assert("sine"@[0] != "gain"@[0]);
    assert("sine"@[0] != "rand"@[0]);
    assert("tri"@[0] != "pan"@[0]);
    assert("saw"@[0] != "pan"@[0]);
    assert("saw"@[0] != "tri"@[0]);
    assert("phase"@[1] != "pulse"@[1]);
    assert("adsr"@[0] != "clip"@[0]);
    assert("adsr"@[0] != "gain"@[0]);
    assert("adsr"@[0] != "rand"@[0]);
    assert("adsr"@[0] != "sine"@[0]);
    assert("seq"@[0] != "pan"@[0]);
    assert("seq"@[0] != "tri"@[0]);
    assert("seq"@[1] != "saw"@[1]);
}

/// No two names make the same kind of unit.
pub proof fn law_unit_kind_injective(n1: Seq<char>, n2: Seq<char>)
    requires
        unit_kind(n1) is Some,
        unit_kind(n1) == unit_kind(n2),
    ensures
        n1 == n2,
{
}

/// A finished plan is of the kind that the name makes, whatever the
/// arguments and outcomes.
pub proof fn law_plan_kind(name: Seq<char>, args: Seq<SExp>, ev: Seq<ArgOutcome>)
    ensures
        make_unit_spec(name, args, ev) matches StepView::Done(Ok((k, _))) ==> unit_kind(name) == Some(k),
{
    if let Some(kind) = unit_kind(name) {
        law_plan_fits(kind, args, ev);
    }
}

/// An event `(name len ...)` whose length is a numeral is a note of that
/// name with that length exactly as written.
pub proof fn law_event_length_kept(n: Seq<char>, t: Seq<char>, rest: SExp)
    ensures
        event_shape_spec(
            SExp::Cons(
                Box::new(SExp::Symbol(n)),
                Box::new(SExp::Cons(Box::new(SExp::Number(t)), Box::new(rest))),
            ),
        ) == Ok::<EventShapeView, EvErrorView>(EventShapeView::Note(n, Some(t))),
{
}

/// An event `(name len ...)` whose length is no numeral is a note of that
/// name with the default length.
pub proof fn law_event_default_length(n: Seq<char>, len: SExp, rest: SExp)
    requires
        !(len is Number),
    ensures
        event_shape_spec(
            SExp::Cons(Box::new(SExp::Symbol(n)), Box::new(SExp::Cons(Box::new(len), Box::new(rest)))),
        ) == Ok::<EventShapeView, EvErrorView>(EventShapeView::Note(n, None)),
{
}

/// `(name)` alone is a note without length, and `loop` is a loop.
pub proof fn law_event_bare_and_loop(n: Seq<char>)
    ensures
        event_shape_spec(SExp::Cons(Box::new(SExp::Symbol(n)), Box::new(SExp::Nil)))
            == Ok::<EventShapeView, EvErrorView>(EventShapeView::NoLength),
        event_shape_spec(SExp::Symbol(seq!['l', 'o', 'o', 'p']))
            == Ok::<EventShapeView, EvErrorView>(EventShapeView::Loop),
{
    reveal_strlit("loop");
    assert("loop"@ =~= seq!['l', 'o', 'o', 'p']);
}

} // verus!
