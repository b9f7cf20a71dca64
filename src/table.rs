use vstd::prelude::*;
use vstd::arithmetic::power2::{pow2, lemma_pow2_pos};
use vstd::bits::{lemma_usize_shr_is_div, lemma_usize_shl_is_mul};
use crate::ast::{Program, ProgramModel, names_view};
use crate::eval::{
    EvalError, EvalErrorKind, EvalFailure, evaluate, evaluate_circuit, failed, read_signals,
};

verus! {

/// The `k`-bit big-endian binary expansion of `i`: position `j` holds bit
/// `k - 1 - j`.
pub open spec fn row_bits(i: nat, k: nat) -> Seq<bool> {
    Seq::new(k, |j: int| (i / pow2((k - 1 - j) as nat)) % 2 == 1)
}

/// Every assignment of `n` inputs, the `i`-th being the binary expansion of
/// `i` with the first input as the most significant bit.
pub fn generate_input_combinations(n: usize) -> (r: Vec<Vec<bool>>)
    requires
        n < usize::BITS,
    ensures
        r@.len() == pow2(n as nat),
        forall|i: int| 0 <= i < r@.len() ==> #[trigger] r@[i]@ == row_bits(i as nat, n as nat),
{
    proof {
        vstd::bits::lemma_usize_pow2_no_overflow(n as nat);
        lemma_usize_shl_is_mul(1, n);
    }
    let count: usize = 1usize << n;
    let mut combinations: Vec<Vec<bool>> = Vec::new();
    let mut i: usize = 0;
    while i < count
        invariant
            n < usize::BITS,
            count == pow2(n as nat),
            i <= count,
            combinations@.len() == i,
            forall|t: int| 0 <= t < i ==> #[trigger] combinations@[t]@ == row_bits(t as nat, n as nat),
        decreases count - i,
    {
        let mut combination: Vec<bool> = Vec::new();
        let mut j: usize = 0;
        while j < n
            invariant
                n < usize::BITS,
                j <= n,
                combination@.len() == j,
                forall|t: int| 0 <= t < j ==> #[trigger] combination@[t] == row_bits(i as nat, n as nat)[t],
            decreases n - j,
        {
            let shift: usize = n - 1 - j;
            proof {
                lemma_usize_shr_is_div(i, shift);
            }
            combination.push((i >> shift) % 2 == 1);
            j = j + 1;
        }
        assert(combination@ == row_bits(i as nat, n as nat));
        combinations.push(combination);
        i = i + 1;
    }
    combinations
}

/// Row `i` of the table of `p`: the `i`-th assignment of its inputs, then
/// the values of its outputs after evaluating it on that assignment.
pub open spec fn table_row(p: ProgramModel, i: nat) -> Result<Seq<bool>, EvalFailure> {
    let bits = row_bits(i, p.inputs.len());
    match evaluate(p, bits) {
        Err(e) => Err(e),
        Ok(env) => match read_signals(env, p.outputs) {
            Err(n) => Err(failed(EvalErrorKind::UnresolvedSignal, n)),
            Ok(vs) => Ok(bits + vs),
        },
    }
}

/// The column names of the table: the inputs, then the outputs.
pub fn table_header(program: &Program) -> (r: Vec<String>)
    ensures
        names_view(r@) == program@.inputs + program@.outputs,
{
    let mut columns: Vec<String> = Vec::new();
    let mut c: usize = 0;
    while c < program.inputs.len()
        invariant
            c <= program.inputs@.len(),
            names_view(columns@) == names_view(program.inputs@).take(c as int),
        decreases program.inputs@.len() - c,
    {
        columns.push(program.inputs[c].clone());
        assert(names_view(program.inputs@).take(c + 1) == names_view(program.inputs@).take(
            c as int,
        ).push(program.inputs@[c as int]@));
        c = c + 1;
    }
    assert(names_view(program.inputs@).take(c as int) == names_view(program.inputs@));
    let mut c: usize = 0;
    while c < program.outputs.len()
        invariant
            c <= program.outputs@.len(),
            names_view(columns@) == names_view(program.inputs@) + names_view(program.outputs@).take(
                c as int,
            ),
        decreases program.outputs@.len() - c,
    {
        let ghost before = names_view(columns@);
        columns.push(program.outputs[c].clone());
        assert(names_view(columns@) == before.push(program.outputs@[c as int]@));
        assert(names_view(program.outputs@).take(c + 1) == names_view(program.outputs@).take(
            c as int,
        ).push(program.outputs@[c as int]@));
        c = c + 1;
    }
    assert(names_view(program.outputs@).take(c as int) == names_view(program.outputs@));
    columns
}

/// Row `i` is the first row of the table of `p` whose evaluation fails, and
/// it fails with `e`.
pub open spec fn first_failing_row(p: ProgramModel, i: nat, e: EvalFailure) -> bool {
    &&& i < pow2(p.inputs.len())
    &&& table_row(p, i) == Err::<Seq<bool>, EvalFailure>(e)
    &&& forall|j: nat| j < i ==> #[trigger] table_row(p, j) is Ok
}

/// The truth table of a program: one row per input assignment, in counting
/// order, each holding the input values and then the output values; or the
/// error of the first row whose evaluation fails.
pub fn truth_table(program: &Program) -> (r: Result<Vec<Vec<bool>>, EvalError>)
    requires
        program.inputs@.len() < usize::BITS,
    ensures
        match r {
            Ok(rows) => rows@.len() == pow2(program@.inputs.len()) && forall|i: int|
                0 <= i < rows@.len() ==> table_row(program@, i as nat) == Ok::<
                    Seq<bool>,
                    EvalFailure,
                >(#[trigger] rows@[i]@),
            Err(e) => exists|i: nat| #[trigger] first_failing_row(program@, i, e@),
        },
{
    let ghost p = program@;
    let k = program.inputs.len();
    let combinations = generate_input_combinations(k);
    let mut rows: Vec<Vec<bool>> = Vec::new();
    let mut i: usize = 0;
    while i < combinations.len()
        invariant
            p == program@,
            k == p.inputs.len(),
            combinations@.len() == pow2(k as nat),
            forall|t: int|
                0 <= t < combinations@.len() ==> #[trigger] combinations@[t]@ == row_bits(
                    t as nat,
                    k as nat,
                ),
            i <= combinations@.len(),
            rows@.len() == i,
            forall|t: int|
                0 <= t < i ==> table_row(p, t as nat) == Ok::<Seq<bool>, EvalFailure>(
                    #[trigger] rows@[t]@,
                ),
        decreases combinations@.len() - i,
    {
        assert(combinations@[i as int]@ == row_bits(i as nat, k as nat));
        let env = match evaluate_circuit(program, &combinations[i]) {
            Err(e) => {
                assert(first_failing_row(p, i as nat, e@)) by {
                    assert forall|j: nat| j < i implies #[trigger] table_row(p, j) is Ok by {
                        assert(table_row(p, j as int as nat) == Ok::<Seq<bool>, EvalFailure>(
                            rows@[j as int]@,
                        ));
                    }
                }
                return Err(e);
            },
            Ok(env) => env,
        };
        match env.read_signals(&program.outputs) {
            Err(e) => {
                assert(first_failing_row(p, i as nat, e@)) by {
                    assert forall|j: nat| j < i implies #[trigger] table_row(p, j) is Ok by {
                        assert(table_row(p, j as int as nat) == Ok::<Seq<bool>, EvalFailure>(
                            rows@[j as int]@,
                        ));
                    }
                }
                return Err(e);
            },
            Ok(outs) => {
                let mut row: Vec<bool> = Vec::new();
                let bits = &combinations[i];
                let mut j: usize = 0;
                while j < bits.len()
                    invariant
                        j <= bits@.len(),
                        row@ == bits@.take(j as int),
                    decreases bits@.len() - j,
                {
                    row.push(bits[j]);
                    j = j + 1;
                }
                let mut j: usize = 0;
                while j < outs.len()
                    invariant
                        j <= outs@.len(),
                        row@ == bits@ + outs@.take(j as int),
                    decreases outs@.len() - j,
                {
                    assert(bits@.take(bits@.len() as int) == bits@);
                    row.push(outs[j]);
                    assert(outs@.take(j + 1) == outs@.take(j as int).push(outs@[j as int]));
                    j = j + 1;
                }
                assert(outs@.take(j as int) == outs@);
                rows.push(row);
            },
        }
        i = i + 1;
    }
    Ok(rows)
}

} // verus!
