use vstd::prelude::*;
use vstd::seq_lib::group_to_multiset_ensures;
use vstd::multiset::Multiset;
use crate::ast::{ComponentModel, GateKind, ProgramModel, SubcircuitModel, find_subcircuit};
use crate::eval::{
    Bindings, EvalErrorKind, EvalFailure, and_all, or_any, xor_all, gate_value, failed, lookup,
    read_signals, bind_all, run_components, component_outputs, run_subcircuit, nesting_budget,
    evaluate, subcircuit_outputs,
};
use crate::parser::{ParseError, parse_tokens};
use crate::lang::TokenKind;
use crate::table::{row_bits, table_row};
use vstd::arithmetic::power2::pow2;

verus! {

proof fn lemma_counts(s: Seq<bool>)
    ensures
        and_all(s) == (s.to_multiset().count(false) == 0),
        or_any(s) == (s.to_multiset().count(true) > 0),
        xor_all(s) == (s.to_multiset().count(true) % 2 == 1),
    decreases s.len(),
{
    broadcast use group_to_multiset_ensures;

    if s.len() > 0 {
        let t = s.drop_last();
        lemma_counts(t);
        assert(s == t.push(s.last()));
        assert(s.to_multiset() == t.to_multiset().insert(s.last()));
    } else {
        assert(s.to_multiset() =~= Multiset::<bool>::empty());
    }
}

/// A primitive gate's value does not depend on the order in which its
/// inputs are listed: any rearrangement of the inputs gives the same result
/// (or the same arity error).
pub proof fn law_gate_input_order(g: GateKind, a: Seq<bool>, b: Seq<bool>)
    requires
        a.to_multiset() == b.to_multiset(),
    ensures
        gate_value(g, a) == gate_value(g, b),
{
    broadcast use group_to_multiset_ensures;

    lemma_counts(a);
    lemma_counts(b);
    a.to_multiset_ensures();
    b.to_multiset_ensures();
    assert(a.len() == b.len());
    if a.len() == 1 {
        assert(a.contains(a[0]));
        assert(b.to_multiset().count(a[0]) > 0);
        assert(b.contains(a[0]));
        assert(b[0] == a[0]);
    }
}

/// AND, OR and XOR group freely: folding over the inputs of two groups in
/// turn equals combining the two groups' folds.
pub proof fn law_gate_grouping(a: Seq<bool>, b: Seq<bool>)
    ensures
        and_all(a + b) == (and_all(a) && and_all(b)),
        or_any(a + b) == (or_any(a) || or_any(b)),
        xor_all(a + b) == (xor_all(a) != xor_all(b)),
    decreases b.len(),
{
    if b.len() == 0 {
        assert(a + b == a);
    } else {
        law_gate_grouping(a, b.drop_last());
        assert((a + b).drop_last() == a + b.drop_last());
        assert((a + b).last() == b.last());
    }
}

/// NAND, NOR and XNOR are the negations of AND, OR and XOR on every input
/// combination.
pub proof fn law_negated_gates(vals: Seq<bool>)
    requires
        vals.len() > 0,
    ensures
        gate_value(GateKind::Nand, vals) == Some(!gate_value(GateKind::And, vals)->Some_0),
        gate_value(GateKind::Nor, vals) == Some(!gate_value(GateKind::Or, vals)->Some_0),
        gate_value(GateKind::Xnor, vals) == Some(!gate_value(GateKind::Xor, vals)->Some_0),
{
}

/// A NOT component with one input outputs its negation; with any other
/// number of inputs it is an arity error.
pub proof fn law_not_gate(p: ProgramModel, c: ComponentModel, vals: Seq<bool>, fuel: nat)
    requires
        c.gate == GateKind::Not,
        c.outputs.len() == 1,
    ensures
        vals.len() == 1 ==> component_outputs(p, c, vals, fuel) == Ok::<
            Seq<bool>,
            EvalFailure,
        >(seq![!vals[0]]),
        vals.len() != 1 ==> component_outputs(p, c, vals, fuel) == Err::<Seq<bool>, EvalFailure>(
            failed(EvalErrorKind::ArityMismatch, c.identifier),
        ),
{
}

/// The result is the error of instances nesting past the budget.
pub open spec fn hits_nesting_bound<T>(r: Result<T, EvalFailure>) -> bool {
    r is Err && r->Err_0.kind == EvalErrorKind::RecursiveSubcircuit
}

proof fn lemma_components_budget(
    p: ProgramModel,
    comps: Seq<ComponentModel>,
    env: Bindings,
    f: nat,
    g: nat,
)
    requires
        f <= g,
        !hits_nesting_bound(run_components(p, comps, env, f)),
    ensures
        run_components(p, comps, env, g) == run_components(p, comps, env, f),
    decreases f, comps.len(),
{
    if comps.len() > 0 {
        let c = comps[0];
        if let Ok(vals) = read_signals(env, c.inputs) {
            lemma_outputs_budget(p, c, vals, f, g);
            if let Ok(outs) = component_outputs(p, c, vals, f) {
                lemma_components_budget(
                    p,
                    comps.drop_first(),
                    bind_all(env, c.outputs, outs),
                    f,
                    g,
                );
            }
        }
    }
}

proof fn lemma_outputs_budget(p: ProgramModel, c: ComponentModel, vals: Seq<bool>, f: nat, g: nat)
    requires
        f <= g,
        !hits_nesting_bound(component_outputs(p, c, vals, f)),
    ensures
        component_outputs(p, c, vals, g) == component_outputs(p, c, vals, f),
    decreases f, 0nat,
{
    if let GateKind::Subcircuit(n) = c.gate {
        if let Some(d) = find_subcircuit(p.subcircuits, n) {
            if vals.len() == d.inputs.len() && c.outputs.len() == d.outputs.len() && f > 0 {
                lemma_subcircuit_budget(p, d, vals, (f - 1) as nat, (g - 1) as nat);
            }
        }
    }
}

proof fn lemma_subcircuit_budget(p: ProgramModel, d: SubcircuitModel, vals: Seq<bool>, f: nat, g: nat)
    requires
        f <= g,
        !hits_nesting_bound(run_subcircuit(p, d, vals, f)),
    ensures
        run_subcircuit(p, d, vals, g) == run_subcircuit(p, d, vals, f),
    decreases f, d.components.len() + 1,
{
    lemma_components_budget(p, d.components, bind_all(Seq::empty(), d.inputs, vals), f, g);
}

/// A subcircuit instance is context-independent: at any nesting depth, and
/// for any input values that suit the definition, its outputs (or error)
/// are those of evaluating the definition on its own with the same inputs,
/// whenever the instance does not exhaust the nesting budget.
pub proof fn law_instance_matches_definition(
    p: ProgramModel,
    c: ComponentModel,
    vals: Seq<bool>,
    fuel: nat,
)
    requires
        c.gate is Subcircuit,
        find_subcircuit(p.subcircuits, c.gate->Subcircuit_0) is Some,
        vals.len() == find_subcircuit(p.subcircuits, c.gate->Subcircuit_0)->Some_0.inputs.len(),
        c.outputs.len() == find_subcircuit(p.subcircuits, c.gate->Subcircuit_0)->Some_0.outputs.len(),
        fuel <= nesting_budget(p) + 1,
        !hits_nesting_bound(component_outputs(p, c, vals, fuel)),
    ensures
        component_outputs(p, c, vals, fuel) == subcircuit_outputs(p, c.gate->Subcircuit_0, vals),
{
    let d = find_subcircuit(p.subcircuits, c.gate->Subcircuit_0)->Some_0;
    lemma_subcircuit_budget(p, d, vals, (fuel - 1) as nat, nesting_budget(p));
}

proof fn lemma_read_signals_missing(env: Bindings, names: Seq<Seq<char>>, j: int)
    requires
        0 <= j < names.len(),
        lookup(env, names[j]) is None,
    ensures
        read_signals(env, names) is Err,
    decreases names.len(),
{
    if j < names.len() - 1 {
        lemma_read_signals_missing(env, names.drop_last(), j);
    }
}

/// A component that reads a signal its scope has not bound fails with an
/// unresolved-signal error, and evaluation stops there: no output of it is
/// bound.
pub proof fn law_unresolved_signal(
    p: ProgramModel,
    comps: Seq<ComponentModel>,
    env: Bindings,
    fuel: nat,
    j: int,
)
    requires
        comps.len() > 0,
        0 <= j < comps[0].inputs.len(),
        lookup(env, comps[0].inputs[j]) is None,
    ensures
        run_components(p, comps, env, fuel) is Err,
        run_components(p, comps, env, fuel)->Err_0.kind == EvalErrorKind::UnresolvedSignal,
        run_components(p, comps, env, fuel)->Err_0.name == read_signals(env, comps[0].inputs)->Err_0,
{
    lemma_read_signals_missing(env, comps[0].inputs, j);
}

/// Parsing holds no hidden state and evaluation is a function of the
/// program and the input values: two programs parsed from the same tokens,
/// evaluated with the same inputs, give identical bindings.
pub proof fn law_reevaluation_deterministic(
    toks: Seq<TokenKind>,
    p1: ProgramModel,
    p2: ProgramModel,
    vals: Seq<bool>,
)
    requires
        parse_tokens(toks) == Ok::<ProgramModel, ParseError>(p1),
        parse_tokens(toks) == Ok::<ProgramModel, ParseError>(p2),
    ensures
        evaluate(p1, vals) == evaluate(p2, vals),
{
}

proof fn lemma_read_signals_values(env: Bindings, names: Seq<Seq<char>>)
    requires
        read_signals(env, names) is Ok,
    ensures
        read_signals(env, names)->Ok_0.len() == names.len(),
        forall|j: int|
            0 <= j < names.len() ==> lookup(env, #[trigger] names[j]) == Some(
                read_signals(env, names)->Ok_0[j],
            ),
    decreases names.len(),
{
    if names.len() > 0 {
        lemma_read_signals_values(env, names.drop_last());
        assert forall|j: int|
            0 <= j < names.len() - 1 implies lookup(env, #[trigger] names[j]) == Some(
                read_signals(env, names)->Ok_0[j],
            ) by {
            assert(names.drop_last()[j] == names[j]);
        }
    }
}

/// The truth table of `p` has a row for each of the `2^k` assignments of its
/// `k` inputs (the rows of `truth_table`), and row `i` shows as its input
/// values the `k`-bit big-endian expansion of `i`, followed by one value per
/// output.
pub proof fn law_table_row_inputs(p: ProgramModel, i: nat)
    requires
        i < pow2(p.inputs.len()),
        table_row(p, i) is Ok,
    ensures
        table_row(p, i)->Ok_0.len() == p.inputs.len() + p.outputs.len(),
        table_row(p, i)->Ok_0.take(p.inputs.len() as int) == row_bits(i, p.inputs.len()),
{
    let k = p.inputs.len();
    let bits = row_bits(i, k);
    let env = evaluate(p, bits)->Ok_0;
    lemma_read_signals_values(env, p.outputs);
    let row = table_row(p, i)->Ok_0;
    assert(row.take(k as int) == bits);
}

/// Running a component sequence is running its first `k` components and
/// then the rest on the scope they leave; an error in the first `k` is the
/// error of the whole.
pub proof fn law_run_components_split(
    p: ProgramModel,
    comps: Seq<ComponentModel>,
    env: Bindings,
    fuel: nat,
    k: int,
)
    requires
        0 <= k <= comps.len(),
    ensures
        match run_components(p, comps.take(k), env, fuel) {
            Ok(e) => run_components(p, comps, env, fuel) == run_components(p, comps.skip(k), e, fuel),
            Err(f) => run_components(p, comps, env, fuel) == Err::<Bindings, EvalFailure>(f),
        },
    decreases k,
{
    if k == 0 {
        assert(comps.take(0) == Seq::<ComponentModel>::empty());
        assert(comps.skip(0) == comps);
    } else {
        let c = comps[0];
        let rest = comps.drop_first();
        assert(comps.take(k)[0] == c);
        assert(comps.take(k).drop_first() == rest.take(k - 1));
        assert(rest.skip(k - 1) == comps.skip(k));
        if let Ok(vals) = read_signals(env, c.inputs) {
            if let Ok(outs) = component_outputs(p, c, vals, fuel) {
                law_run_components_split(p, rest, bind_all(env, c.outputs, outs), fuel, k - 1);
            }
        }
    }
}

/// The top-level scope of `p` before component `k`, with its inputs bound
/// to `vals`.
pub open spec fn scope_before(p: ProgramModel, vals: Seq<bool>, k: int) -> Result<
    Bindings,
    EvalFailure,
> {
    run_components(
        p,
        p.components.take(k),
        bind_all(Seq::empty(), p.inputs, vals),
        nesting_budget(p),
    )
}

/// When evaluation of a whole program reaches a component that reads a
/// signal its scope has not bound, the evaluation fails with an
/// unresolved-signal error naming the first such input of that component.
pub proof fn law_evaluation_unresolved_signal(p: ProgramModel, vals: Seq<bool>, k: int, j: int)
    requires
        vals.len() == p.inputs.len(),
        0 <= k < p.components.len(),
        scope_before(p, vals, k) is Ok,
        0 <= j < p.components[k].inputs.len(),
        lookup(scope_before(p, vals, k)->Ok_0, p.components[k].inputs[j]) is None,
    ensures
        evaluate(p, vals) is Err,
        evaluate(p, vals)->Err_0.kind == EvalErrorKind::UnresolvedSignal,
        evaluate(p, vals)->Err_0.name == read_signals(
            scope_before(p, vals, k)->Ok_0,
            p.components[k].inputs,
        )->Err_0,
{
    let env0 = bind_all(Seq::empty(), p.inputs, vals);
    law_run_components_split(p, p.components, env0, nesting_budget(p), k);
    let rest = p.components.skip(k);
    assert(rest[0] == p.components[k]);
    law_unresolved_signal(p, rest, scope_before(p, vals, k)->Ok_0, nesting_budget(p), j);
}

/// When evaluation of a whole program reaches a NOT component whose inputs
/// are bound but number other than one, the evaluation fails with an arity
/// error naming that component.
pub proof fn law_evaluation_not_arity(p: ProgramModel, vals: Seq<bool>, k: int)
    requires
        vals.len() == p.inputs.len(),
        0 <= k < p.components.len(),
        scope_before(p, vals, k) is Ok,
        p.components[k].gate == GateKind::Not,
        p.components[k].outputs.len() == 1,
        read_signals(scope_before(p, vals, k)->Ok_0, p.components[k].inputs) is Ok,
        p.components[k].inputs.len() != 1,
    ensures
        evaluate(p, vals) == Err::<Bindings, EvalFailure>(
            failed(EvalErrorKind::ArityMismatch, p.components[k].identifier),
        ),
{
    let env0 = bind_all(Seq::empty(), p.inputs, vals);
    law_run_components_split(p, p.components, env0, nesting_budget(p), k);
    let rest = p.components.skip(k);
    assert(rest[0] == p.components[k]);
    let e = scope_before(p, vals, k)->Ok_0;
    let c = p.components[k];
    lemma_read_signals_values(e, c.inputs);
    let vs = read_signals(e, c.inputs)->Ok_0;
    law_not_gate(p, c, vs, nesting_budget(p));
    assert(run_components(p, rest, e, nesting_budget(p)) == Err::<Bindings, EvalFailure>(
        failed(EvalErrorKind::ArityMismatch, c.identifier),
    ));
}

/// When evaluation of a whole program reaches a subcircuit instance whose
/// inputs are bound, the instance binds its outputs to the outputs of the
/// definition evaluated on its own with those input values, independent of
/// every other binding of the scope (or the evaluation fails with that
/// definition's error), whenever the instance does not exhaust the nesting
/// budget.
pub proof fn law_evaluation_instance(p: ProgramModel, vals: Seq<bool>, k: int)
    requires
        vals.len() == p.inputs.len(),
        0 <= k < p.components.len(),
        scope_before(p, vals, k) is Ok,
        p.components[k].gate is Subcircuit,
        find_subcircuit(p.subcircuits, p.components[k].gate->Subcircuit_0) is Some,
        read_signals(scope_before(p, vals, k)->Ok_0, p.components[k].inputs) is Ok,
        read_signals(scope_before(p, vals, k)->Ok_0, p.components[k].inputs)->Ok_0.len()
            == find_subcircuit(p.subcircuits, p.components[k].gate->Subcircuit_0)->Some_0.inputs.len(),
        p.components[k].outputs.len() == find_subcircuit(
            p.subcircuits,
            p.components[k].gate->Subcircuit_0,
        )->Some_0.outputs.len(),
        !hits_nesting_bound(
            component_outputs(
                p,
                p.components[k],
                read_signals(scope_before(p, vals, k)->Ok_0, p.components[k].inputs)->Ok_0,
                nesting_budget(p),
            ),
        ),
    ensures
        evaluate(p, vals) == match subcircuit_outputs(
            p,
            p.components[k].gate->Subcircuit_0,
            read_signals(scope_before(p, vals, k)->Ok_0, p.components[k].inputs)->Ok_0,
        ) {
            Ok(outs) => run_components(
                p,
                p.components.skip(k + 1),
                bind_all(scope_before(p, vals, k)->Ok_0, p.components[k].outputs, outs),
                nesting_budget(p),
            ),
            Err(f) => Err(f),
        },
{
    let env0 = bind_all(Seq::empty(), p.inputs, vals);
    law_run_components_split(p, p.components, env0, nesting_budget(p), k);
    let rest = p.components.skip(k);
    assert(rest[0] == p.components[k]);
    assert(rest.drop_first() == p.components.skip(k + 1));
    let e = scope_before(p, vals, k)->Ok_0;
    let c = p.components[k];
    let vs = read_signals(e, c.inputs)->Ok_0;
    law_instance_matches_definition(p, c, vs, nesting_budget(p));
}

} // verus!
