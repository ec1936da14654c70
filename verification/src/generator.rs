//! The binding generator: every function of a module, once and in the
//! order of the descriptor, handed to a backend that writes the binding.
//!
//! A backend is a function from the output so far and one signature to
//! the output with that function's binding added, or to a failure. The
//! generator knows nothing of the target language: it threads the output
//! through the backend, function by function, and stops at the first
//! failure.

use vstd::prelude::*;
use crate::model::{FunctionSignature, Module};

verus! {

/// `to` is what the backend `emit` makes of the output `from` when it is
/// handed the first `k` functions of `fs`, one after the other, and
/// accepts each.
pub open spec fn emitted_through<S, E, F: Fn(S, &FunctionSignature) -> Result<S, E>>(
    emit: &F,
    fs: Seq<FunctionSignature>,
    k: nat,
    from: S,
    to: S,
) -> bool
    decreases k,
{
    if k == 0 {
        from == to
    } else {
        exists|mid: S|
            emitted_through(emit, fs, (k - 1) as nat, from, mid) && #[trigger] emit.ensures(
                (mid, &fs[k - 1]),
                Ok(to),
            )
    }
}

/// The backend `emit` accepts the first `k` functions of `fs` from the
/// output `from` and then answers the next one with the failure `e`.
pub open spec fn refused_at<S, E, F: Fn(S, &FunctionSignature) -> Result<S, E>>(
    emit: &F,
    fs: Seq<FunctionSignature>,
    k: nat,
    from: S,
    e: E,
) -> bool {
    exists|mid: S|
        emitted_through(emit, fs, k, from, mid) && #[trigger] emit.ensures((mid, &fs[k as int]), Err(e))
}

/// The outputs `states` are what one run over the first `k` functions of
/// `fs` goes through: it starts at `states[0]`, and the backend, handed
/// the output `states[i]` and the function `fs[i]`, accepted it and gave
/// `states[i + 1]`.
pub open spec fn is_run<S, E, F: Fn(S, &FunctionSignature) -> Result<S, E>>(
    emit: &F,
    fs: Seq<FunctionSignature>,
    k: nat,
    states: Seq<S>,
) -> bool {
    &&& states.len() == k + 1
    &&& forall|i: int|
        0 <= i < k ==> emit.ensures((#[trigger] states[i], &fs[i]), Ok(states[i + 1]))
}

/// What `generate` returns on success comes from one run over the
/// module: one call of the backend for each function, the `i`-th call on
/// the `i`-th function of the descriptor, none left out and none twice.
pub proof fn lemma_each_function_once_in_order<S, E, F: Fn(S, &FunctionSignature) -> Result<S, E>>(
    emit: &F,
    fs: Seq<FunctionSignature>,
    k: nat,
    from: S,
    to: S,
)
    requires
        emitted_through(emit, fs, k, from, to),
    ensures
        exists|states: Seq<S>| #[trigger]
            is_run(emit, fs, k, states) && states[0] == from && states[k as int] == to,
    decreases k,
{
    if k == 0 {
        let states = seq![from];
        assert(is_run(emit, fs, k, states) && states[0] == from && states[k as int] == to);
    } else {
        let mid = choose|mid: S|
            emitted_through(emit, fs, (k - 1) as nat, from, mid) && #[trigger] emit.ensures(
                (mid, &fs[k - 1]),
                Ok(to),
            );
        lemma_each_function_once_in_order(emit, fs, (k - 1) as nat, from, mid);
        let before = choose|states: Seq<S>| #[trigger]
            is_run(emit, fs, (k - 1) as nat, states) && states[0] == from && states[k - 1] == mid;
        let states = before.push(to);
        assert forall|i: int| 0 <= i < k implies emit.ensures(
            (#[trigger] states[i], &fs[i]),
            Ok(states[i + 1]),
        ) by {
            if i < k - 1 {
                assert(states[i] == before[i]);
                assert(states[i + 1] == before[i + 1]);
            }
        }
        assert(is_run(emit, fs, k, states) && states[0] == from && states[k as int] == to);
    }
}

/// Hands each function of `module` to the backend, in the order of the
/// descriptor, each exactly once, the output of one call being the input
/// of the next, and returns the last output. At the first failure it
/// stops and returns that failure as the backend gave it.
pub fn generate<S, E, F: Fn(S, &FunctionSignature) -> Result<S, E>>(
    module: &Module,
    output: S,
    emit: &F,
) -> (r: Result<S, E>)
    requires
        forall|s: S, f: &FunctionSignature| emit.requires((s, f)),
    ensures
        match r {
            Ok(done) => emitted_through(
                emit,
                module.functions@,
                module.functions@.len(),
                output,
                done,
            ),
            Err(e) => exists|k: nat|
                k < module.functions@.len() && #[trigger] refused_at(
                    emit,
                    module.functions@,
                    k,
                    output,
                    e,
                ),
        },
{
    let n: usize = module.functions.len();
    let mut current: S = output;
    let mut i: usize = 0;
    while i < n
        invariant
            n == module.functions@.len(),
            0 <= i <= n,
            forall|s: S, f: &FunctionSignature| emit.requires((s, f)),
            emitted_through(emit, module.functions@, i as nat, output, current),
        decreases n - i,
    {
        let ghost before = current;
        match emit(current, &module.functions[i]) {
            Err(e) => {
                assert(emit.ensures((before, &module.functions@[i as int]), Err(e)));
                assert(refused_at(emit, module.functions@, i as nat, output, e));
                return Err(e);
            },
            Ok(next) => {
                proof {
                    let k = (i + 1) as nat;
                    assert((k - 1) as nat == i as nat);
                    assert(emitted_through(emit, module.functions@, (k - 1) as nat, output, before)
                        && emit.ensures((before, &module.functions@[k - 1]), Ok(next)));
                    assert(emitted_through(emit, module.functions@, k, output, next));
                }
                current = next;
            },
        }
        i += 1;
    }
    Ok(current)
}

} // verus!
