use vstd::prelude::*;
use crate::ast::{
    GateType, GateKind, Component, ComponentModel, Subcircuit, SubcircuitModel, Program,
    ProgramModel, names_view, components_view, subcircuits_view, find_subcircuit,
    lookup_subcircuit,
};

verus! {

/// Conjunction of every value, folded left to right from `true`.
pub open spec fn and_all(s: Seq<bool>) -> bool
    decreases s.len(),
{
    if s.len() == 0 {
        true
    } else {
        and_all(s.drop_last()) && s.last()
    }
}

/// Disjunction of every value, folded left to right from `false`.
pub open spec fn or_any(s: Seq<bool>) -> bool
    decreases s.len(),
{
    if s.len() == 0 {
        false
    } else {
        or_any(s.drop_last()) || s.last()
    }
}

/// Exclusive-or of every value, folded left to right from `false`.
pub open spec fn xor_all(s: Seq<bool>) -> bool
    decreases s.len(),
{
    if s.len() == 0 {
        false
    } else {
        xor_all(s.drop_last()) != s.last()
    }
}

fn eval_and(inputs: Vec<bool>) -> (r: bool)
    ensures
        r == and_all(inputs@),
{
    let mut acc = true;
    let mut i: usize = 0;
    while i < inputs.len()
        invariant
            i <= inputs@.len(),
            acc == and_all(inputs@.take(i as int)),
        decreases inputs@.len() - i,
    {
        assert(inputs@.take(i + 1).drop_last() == inputs@.take(i as int));
        acc = acc && inputs[i];
        i = i + 1;
    }
    assert(inputs@.take(i as int) == inputs@);
    acc
}

fn eval_or(inputs: Vec<bool>) -> (r: bool)
    ensures
        r == or_any(inputs@),
{
    let mut acc = false;
    let mut i: usize = 0;
    while i < inputs.len()
        invariant
            i <= inputs@.len(),
            acc == or_any(inputs@.take(i as int)),
        decreases inputs@.len() - i,
    {
        assert(inputs@.take(i + 1).drop_last() == inputs@.take(i as int));
        acc = acc || inputs[i];
        i = i + 1;
    }
    assert(inputs@.take(i as int) == inputs@);
    acc
}

fn eval_not(input: bool) -> (r: bool)
    ensures
        r == !input,
{
    !input
}

fn eval_nand(inputs: Vec<bool>) -> (r: bool)
    ensures
        r == !and_all(inputs@),
{
    !eval_and(inputs)
}

fn eval_nor(inputs: Vec<bool>) -> (r: bool)
    ensures
        r == !or_any(inputs@),
{
    !eval_or(inputs)
}

fn eval_xor(inputs: Vec<bool>) -> (r: bool)
    ensures
        r == xor_all(inputs@),
{
    let mut acc = false;
    let mut i: usize = 0;
    while i < inputs.len()
        invariant
            i <= inputs@.len(),
            acc == xor_all(inputs@.take(i as int)),
        decreases inputs@.len() - i,
    {
        assert(inputs@.take(i + 1).drop_last() == inputs@.take(i as int));
        acc = acc != inputs[i];
        i = i + 1;
    }
    assert(inputs@.take(i as int) == inputs@);
    acc
}

fn eval_xnor(inputs: Vec<bool>) -> (r: bool)
    ensures
        r == !xor_all(inputs@),
{
    !eval_xor(inputs)
}

/// The value a primitive gate computes from its inputs, or `None` when the
/// number of inputs does not suit it: `NOT` takes exactly one input, the
/// others at least one. A subcircuit has no value here.
pub open spec fn gate_value(g: GateKind, vals: Seq<bool>) -> Option<bool> {
    match g {
        GateKind::Not => if vals.len() == 1 {
            Some(!vals[0])
        } else {
            None
        },
        GateKind::Subcircuit(_) => None,
        _ => if vals.len() == 0 {
            None
        } else {
            match g {
                GateKind::And => Some(and_all(vals)),
                GateKind::Or => Some(or_any(vals)),
                GateKind::Nand => Some(!and_all(vals)),
                GateKind::Nor => Some(!or_any(vals)),
                GateKind::Xor => Some(xor_all(vals)),
                _ => Some(!xor_all(vals)),
            }
        },
    }
}

/// Applies a primitive gate to its input values.
pub fn apply_gate(gate: &GateType, inputs: Vec<bool>) -> (r: Option<bool>)
    ensures
        r == gate_value(gate@, inputs@),
{
    match gate {
        GateType::Not => if inputs.len() == 1 {
            Some(eval_not(inputs[0]))
        } else {
            None
        },
        GateType::Subcircuit(_) => None,
        _ => if inputs.len() == 0 {
            None
        } else {
            match gate {
                GateType::And => Some(eval_and(inputs)),
                GateType::Or => Some(eval_or(inputs)),
                GateType::Nand => Some(eval_nand(inputs)),
                GateType::Nor => Some(eval_nor(inputs)),
                GateType::Xor => Some(eval_xor(inputs)),
                _ => Some(eval_xnor(inputs)),
            }
        },
    }
}

/// What went wrong while evaluating a circuit.
#[derive(Debug, Clone, Copy, PartialEq, Eq, Structural)]
pub enum EvalErrorKind {
    /// A component reads a signal that is not bound in its scope; the name
    /// is the signal's.
    UnresolvedSignal,
    /// An instance names a subcircuit that the program does not define; the
    /// name is the subcircuit's.
    UnknownSubcircuit,
    /// A gate or instance got a number of inputs or outputs that does not
    /// suit it; the name is the component's identifier (empty for the
    /// top-level inputs).
    ArityMismatch,
    /// Instances nest deeper than the number of definitions, so some
    /// subcircuit instantiates itself; the name is the subcircuit's.
    RecursiveSubcircuit,
}

/// An evaluation error and the name it concerns.
#[derive(Debug)]
pub struct EvalError {
    pub kind: EvalErrorKind,
    pub name: String,
}

pub struct EvalFailure {
    pub kind: EvalErrorKind,
    pub name: Seq<char>,
}

impl View for EvalError {
    type V = EvalFailure;

    open spec fn view(&self) -> EvalFailure {
        EvalFailure { kind: self.kind, name: self.name@ }
    }
}

pub open spec fn failed(kind: EvalErrorKind, name: Seq<char>) -> EvalFailure {
    EvalFailure { kind, name }
}

fn eval_error(kind: EvalErrorKind, name: &String) -> (r: EvalError)
    ensures
        r@ == failed(kind, name@),
{
    EvalError { kind, name: name.clone() }
}

/// The bindings of one scope, oldest first.
pub type Bindings = Seq<(Seq<char>, bool)>;

/// The value bound to `n` most recently.
pub open spec fn lookup(env: Bindings, n: Seq<char>) -> Option<bool>
    decreases env.len(),
{
    if env.len() == 0 {
        None
    } else if env.last().0 == n {
        Some(env.last().1)
    } else {
        lookup(env.drop_last(), n)
    }
}

/// The values of `names` in order, or the first name that is not bound.
pub open spec fn read_signals(env: Bindings, names: Seq<Seq<char>>) -> Result<Seq<bool>, Seq<char>>
    decreases names.len(),
{
    if names.len() == 0 {
        Ok(Seq::empty())
    } else {
        match read_signals(env, names.drop_last()) {
            Err(n) => Err(n),
            Ok(vs) => match lookup(env, names.last()) {
                None => Err(names.last()),
                Some(b) => Ok(vs.push(b)),
            },
        }
    }
}

/// `env` with each of `names` bound, in order, to the value at its position.
pub open spec fn bind_all(env: Bindings, names: Seq<Seq<char>>, vals: Seq<bool>) -> Bindings {
    env + Seq::new(names.len(), |k: int| (names[k], vals[k]))
}

/// The signal values of one scope.
#[derive(Debug)]
pub struct Env {
    entries: Vec<(String, bool)>,
}

impl View for Env {
    type V = Bindings;

    closed spec fn view(&self) -> Bindings {
        self.entries@.map_values(|e: (String, bool)| (e.0@, e.1))
    }
}

impl Env {
    /// A scope with nothing bound.
    pub fn new() -> (r: Env)
        ensures
            r@ == Seq::<(Seq<char>, bool)>::empty(),
    {
        let r = Env { entries: Vec::new() };
        assert(r@ == Seq::<(Seq<char>, bool)>::empty());
        r
    }

    /// The value of the signal `name`, if it is bound.
    pub fn get(&self, name: &String) -> (r: Option<bool>)
        ensures
            r == lookup(self@, name@),
    {
        let ghost all = self@;
        let mut i: usize = self.entries.len();
        assert(all.take(i as int) == all);
        while i > 0
            invariant
                i <= self.entries@.len(),
                all == self@,
                lookup(all, name@) == lookup(all.take(i as int), name@),
            decreases i,
        {
            assert(all.take(i as int).drop_last() == all.take(i - 1));
            if self.entries[i - 1].0 == *name {
                return Some(self.entries[i - 1].1);
            }
            i = i - 1;
        }
        None
    }

    /// Binds `name` to `value`, over any earlier binding of it.
    pub fn bind(&mut self, name: String, value: bool)
        ensures
            final(self)@ == old(self)@.push((name@, value)),
    {
        self.entries.push((name, value));
        assert(self@ == old(self)@.push((name@, value)));
    }

    fn bind_all(&mut self, names: &Vec<String>, vals: &Vec<bool>)
        requires
            names@.len() == vals@.len(),
        ensures
            final(self)@ == bind_all(old(self)@, names_view(names@), vals@),
    {
        let mut i: usize = 0;
        while i < names.len()
            invariant
                i <= names@.len(),
                names@.len() == vals@.len(),
                self@ == bind_all(old(self)@, names_view(names@).take(i as int), vals@),
            decreases names@.len() - i,
        {
            self.bind(names[i].clone(), vals[i]);
            assert(bind_all(old(self)@, names_view(names@).take(i + 1), vals@) == bind_all(
                old(self)@,
                names_view(names@).take(i as int),
                vals@,
            ).push((names@[i as int]@, vals@[i as int])));
            i = i + 1;
        }
        assert(names_view(names@).take(i as int) == names_view(names@));
    }

    pub fn read_signals(&self, names: &Vec<String>) -> (r: Result<Vec<bool>, EvalError>)
        ensures
            match read_signals(self@, names_view(names@)) {
                Ok(vs) => r is Ok && r->Ok_0@ == vs,
                Err(n) => r is Err && r->Err_0@ == failed(EvalErrorKind::UnresolvedSignal, n),
            },
    {
        let ghost ns = names_view(names@);
        let mut vals: Vec<bool> = Vec::new();
        let mut i: usize = 0;
        while i < names.len()
            invariant
                i <= names@.len(),
                ns == names_view(names@),
                read_signals(self@, ns.take(i as int)) == Ok::<Seq<bool>, Seq<char>>(vals@),
            decreases names@.len() - i,
        {
            assert(ns.take(i + 1).drop_last() == ns.take(i as int));
            match self.get(&names[i]) {
                None => {
                    assert(read_signals(self@, ns.take(i + 1)) == Err::<Seq<bool>, Seq<char>>(
                        ns[i as int],
                    ));
                    proof {
                        lemma_read_signals_prefix_err(self@, ns, i + 1);
                    }
                    return Err(eval_error(EvalErrorKind::UnresolvedSignal, &names[i]));
                },
                Some(b) => {
                    vals.push(b);
                },
            }
            i = i + 1;
        }
        assert(ns.take(i as int) == ns);
        Ok(vals)
    }
}

proof fn lemma_read_signals_len(env: Bindings, names: Seq<Seq<char>>)
    ensures
        read_signals(env, names) matches Ok(vs) ==> vs.len() == names.len(),
    decreases names.len(),
{
    if names.len() > 0 {
        lemma_read_signals_len(env, names.drop_last());
    }
}

/// An error on a prefix of the names is the error on all of them.
proof fn lemma_read_signals_prefix_err(env: Bindings, names: Seq<Seq<char>>, k: int)
    requires
        0 <= k <= names.len(),
        read_signals(env, names.take(k)) is Err,
    ensures
        read_signals(env, names) == read_signals(env, names.take(k)),
    decreases names.len() - k,
{
    if k < names.len() {
        assert(names.take(k + 1).drop_last() == names.take(k));
        lemma_read_signals_prefix_err(env, names, k + 1);
    } else {
        assert(names.take(k) == names);
    }
}

/// Runs `comps` in order on the scope `env`: each reads its inputs from the
/// scope and binds its outputs in it. `fuel` is how many instance levels may
/// still open below this scope.
pub open spec fn run_components(
    p: ProgramModel,
    comps: Seq<ComponentModel>,
    env: Bindings,
    fuel: nat,
) -> Result<Bindings, EvalFailure>
    decreases fuel, comps.len(),
{
    if comps.len() == 0 {
        Ok(env)
    } else {
        let c = comps[0];
        match read_signals(env, c.inputs) {
            Err(n) => Err(failed(EvalErrorKind::UnresolvedSignal, n)),
            Ok(vals) => match component_outputs(p, c, vals, fuel) {
                Err(e) => Err(e),
                Ok(outs) => run_components(p, comps.drop_first(), bind_all(env, c.outputs, outs), fuel),
            },
        }
    }
}

/// The output values of component `c` on the input values `vals`.
pub open spec fn component_outputs(
    p: ProgramModel,
    c: ComponentModel,
    vals: Seq<bool>,
    fuel: nat,
) -> Result<Seq<bool>, EvalFailure>
    decreases fuel, 0nat,
{
    match c.gate {
        GateKind::Subcircuit(n) => match find_subcircuit(p.subcircuits, n) {
            None => Err(failed(EvalErrorKind::UnknownSubcircuit, n)),
            Some(d) => if vals.len() != d.inputs.len() || c.outputs.len() != d.outputs.len() {
                Err(failed(EvalErrorKind::ArityMismatch, c.identifier))
            } else if fuel == 0 {
                Err(failed(EvalErrorKind::RecursiveSubcircuit, n))
            } else {
                run_subcircuit(p, d, vals, (fuel - 1) as nat)
            },
        },
        g => if c.outputs.len() != 1 {
            Err(failed(EvalErrorKind::ArityMismatch, c.identifier))
        } else {
            match gate_value(g, vals) {
                None => Err(failed(EvalErrorKind::ArityMismatch, c.identifier)),
                Some(b) => Ok(seq![b]),
            }
        },
    }
}

/// The output values of definition `d` run in a fresh scope that binds only
/// its inputs, to `vals` by position.
pub open spec fn run_subcircuit(p: ProgramModel, d: SubcircuitModel, vals: Seq<bool>, fuel: nat) -> Result<
    Seq<bool>,
    EvalFailure,
>
    decreases fuel, d.components.len() + 1,
{
    match run_components(p, d.components, bind_all(Seq::empty(), d.inputs, vals), fuel) {
        Err(e) => Err(e),
        Ok(env) => match read_signals(env, d.outputs) {
            Err(n) => Err(failed(EvalErrorKind::UnresolvedSignal, n)),
            Ok(outs) => Ok(outs),
        },
    }
}

/// How deep instances may nest: a chain of instances deeper than the number
/// of definitions repeats one of them.
pub open spec fn nesting_budget(p: ProgramModel) -> nat {
    p.subcircuits.len()
}

/// The signals of a whole evaluation of `p` with its inputs bound, in
/// declaration order, to `vals`.
pub open spec fn evaluate(p: ProgramModel, vals: Seq<bool>) -> Result<Bindings, EvalFailure> {
    if vals.len() != p.inputs.len() {
        Err(failed(EvalErrorKind::ArityMismatch, Seq::empty()))
    } else {
        run_components(p, p.components, bind_all(Seq::empty(), p.inputs, vals), nesting_budget(p))
    }
}

/// The outputs of the definition named `name` evaluated on its own, with its
/// inputs bound to `vals`.
pub open spec fn subcircuit_outputs(p: ProgramModel, name: Seq<char>, vals: Seq<bool>) -> Result<
    Seq<bool>,
    EvalFailure,
> {
    match find_subcircuit(p.subcircuits, name) {
        None => Err(failed(EvalErrorKind::UnknownSubcircuit, name)),
        Some(d) => if vals.len() != d.inputs.len() {
            Err(failed(EvalErrorKind::ArityMismatch, name))
        } else {
            run_subcircuit(p, d, vals, nesting_budget(p))
        },
    }
}

fn run_components_exec(program: &Program, comps: &Vec<Component>, env: &mut Env, fuel: usize) -> (r:
    Result<(), EvalError>)
    ensures
        match run_components(program@, components_view(comps@), old(env)@, fuel as nat) {
            Ok(e) => r is Ok && final(env)@ == e,
            Err(f) => r is Err && r->Err_0@ == f,
        },
    decreases fuel, comps@.len(),
{
    let ghost all = components_view(comps@);
    let ghost env0 = env@;
    let mut i: usize = 0;
    assert(all.skip(0) == all);
    while i < comps.len()
        invariant
            i <= comps@.len(),
            all == components_view(comps@),
            env0 == old(env)@,
            run_components(program@, all, env0, fuel as nat) == run_components(
                program@,
                all.skip(i as int),
                env@,
                fuel as nat,
            ),
        decreases comps@.len() - i,
    {
        let c = &comps[i];
        let ghost rest = all.skip(i as int);
        assert(rest[0] == c@);
        assert(rest.drop_first() == all.skip(i + 1));
        assert(rest.len() > 0);
        let vals = match env.read_signals(&c.inputs) {
            Err(e) => {
                assert(run_components(program@, rest, env@, fuel as nat) == Err::<
                    Bindings,
                    EvalFailure,
                >(e@));
                return Err(e);
            },
            Ok(v) => v,
        };
        let ghost vs = vals@;
        let outs = match component_outputs_exec(program, c, vals, fuel) {
            Err(e) => {
                assert(run_components(program@, rest, env@, fuel as nat) == Err::<
                    Bindings,
                    EvalFailure,
                >(e@));
                return Err(e);
            },
            Ok(o) => o,
        };
        env.bind_all(&c.outputs, &outs);
        i = i + 1;
    }
    assert(all.skip(i as int) == Seq::<ComponentModel>::empty());
    Ok(())
}

fn component_outputs_exec(program: &Program, c: &Component, vals: Vec<bool>, fuel: usize) -> (r: Result<
    Vec<bool>,
    EvalError,
>)
    ensures
        match component_outputs(program@, c@, vals@, fuel as nat) {
            Ok(o) => r is Ok && r->Ok_0@ == o && o.len() == c@.outputs.len(),
            Err(f) => r is Err && r->Err_0@ == f,
        },
    decreases fuel, 0nat,
{
    match &c.gate_type {
        GateType::Subcircuit(n) => match lookup_subcircuit(&program.subcircuits, n) {
            None => Err(eval_error(EvalErrorKind::UnknownSubcircuit, n)),
            Some(d) => {
                if vals.len() != d.inputs.len() || c.outputs.len() != d.outputs.len() {
                    Err(eval_error(EvalErrorKind::ArityMismatch, &c.identifier))
                } else if fuel == 0 {
                    Err(eval_error(EvalErrorKind::RecursiveSubcircuit, n))
                } else {
                    run_subcircuit_exec(program, d, vals, fuel - 1)
                }
            },
        },
        _ => {
            if c.outputs.len() != 1 {
                Err(eval_error(EvalErrorKind::ArityMismatch, &c.identifier))
            } else {
                match apply_gate(&c.gate_type, vals) {
                    None => Err(eval_error(EvalErrorKind::ArityMismatch, &c.identifier)),
                    Some(b) => Ok(vec![b]),
                }
            }
        },
    }
}

fn run_subcircuit_exec(program: &Program, d: &Subcircuit, vals: Vec<bool>, fuel: usize) -> (r: Result<
    Vec<bool>,
    EvalError,
>)
    requires
        vals@.len() == d@.inputs.len(),
    ensures
        match run_subcircuit(program@, d@, vals@, fuel as nat) {
            Ok(o) => r is Ok && r->Ok_0@ == o && o.len() == d@.outputs.len(),
            Err(f) => r is Err && r->Err_0@ == f,
        },
    decreases fuel, d.components@.len() + 1,
{
    let mut env = Env::new();
    env.bind_all(&d.inputs, &vals);
    match run_components_exec(program, &d.components, &mut env, fuel) {
        Err(e) => Err(e),
        Ok(()) => {
            proof {
                lemma_read_signals_len(env@, d@.outputs);
            }
            env.read_signals(&d.outputs)
        },
    }
}

/// Evaluates the whole circuit with its inputs bound, in declaration order,
/// to `input_values`, and returns every signal of the top-level scope.
pub fn evaluate_circuit(program: &Program, input_values: &Vec<bool>) -> (r: Result<Env, EvalError>)
    ensures
        match evaluate(program@, input_values@) {
            Ok(e) => r is Ok && r->Ok_0@ == e,
            Err(f) => r is Err && r->Err_0@ == f,
        },
{
    if input_values.len() != program.inputs.len() {
        return Err(EvalError { kind: EvalErrorKind::ArityMismatch, name: String::new() });
    }
    let mut env = Env::new();
    env.bind_all(&program.inputs, input_values);
    match run_components_exec(program, &program.components, &mut env, program.subcircuits.len()) {
        Err(e) => Err(e),
        Ok(()) => Ok(env),
    }
}

/// Evaluates the definition named `name` on its own, with its inputs bound
/// to `input_values`, and returns its outputs in declaration order.
pub fn evaluate_subcircuit(program: &Program, name: &String, input_values: &Vec<bool>) -> (r: Result<
    Vec<bool>,
    EvalError,
>)
    ensures
        match subcircuit_outputs(program@, name@, input_values@) {
            Ok(o) => r is Ok && r->Ok_0@ == o,
            Err(f) => r is Err && r->Err_0@ == f,
        },
{
    match lookup_subcircuit(&program.subcircuits, name) {
        None => Err(eval_error(EvalErrorKind::UnknownSubcircuit, name)),
        Some(d) => {
            if input_values.len() != d.inputs.len() {
                Err(eval_error(EvalErrorKind::ArityMismatch, name))
            } else {
                let mut vals: Vec<bool> = Vec::new();
                let mut i: usize = 0;
                while i < input_values.len()
                    invariant
                        i <= input_values@.len(),
                        vals@ == input_values@.take(i as int),
                    decreases input_values@.len() - i,
                {
                    vals.push(input_values[i]);
                    i = i + 1;
                }
                assert(vals@ == input_values@);
                run_subcircuit_exec(program, d, vals, program.subcircuits.len())
            }
        },
    }
}

} // verus!
