//! Two tensors under one handle.
use vstd::prelude::*;

use crate::context;
use crate::context::{ContextView, FfcPair, TorchContext};
use crate::runtime;
use crate::value::{return_int, ErrorView, Value, ValueView, VmResult};

verus! {

/// Why a pair is not made: the local tensor has to be there, and the global one unless it is zero.
pub open spec fn pair_refusal<T>(c: ContextView<T>, local: i64, global: i64) -> Option<ErrorView> {
    match context::tensor_outcome(c, local) {
        Err(e) => Some(e),
        Ok(_) => if global == 0 {
            None
        } else {
            match context::tensor_outcome(c, global) {
                Err(e) => Some(e),
                Ok(_) => None,
            }
        },
    }
}

/// Makes a pair of two tensors and gives its handle.
pub fn pair_new<T>(context: &mut TorchContext<T>, local: i64, global: i64) -> (r: VmResult<Value>)
    requires
        old(context).wf(),
        old(context).next_pair < i64::MAX,
    ensures
        final(context).wf(),
        match pair_refusal(old(context)@, local, global) {
            Some(e) => {
                &&& runtime::outcome(r) == Err::<ValueView, ErrorView>(e)
                &&& final(context)@ == old(context)@
            },
            None => {
                &&& runtime::outcome(r) == Ok::<ValueView, ErrorView>(
                    ValueView::Int(old(context)@.next_pair),
                )
                &&& final(context)@ == context::with_pair(
                    old(context)@,
                    (FfcPair { local, global }),
                )
            },
        },
{
    match context.tensor(local) {
        Err(e) => {
            return Err(e);
        },
        Ok(_) => {},
    }
    if global != 0 {
        match context.tensor(global) {
            Err(e) => {
                return Err(e);
            },
            Ok(_) => {},
        }
    }
    return_int(context.insert_pair(FfcPair { local, global }))
}

/// What reading the local side of a pair gives.
pub open spec fn local_outcome<T>(c: ContextView<T>, pair: i64) -> Result<ValueView, ErrorView> {
    match context::pair_outcome(c, pair) {
        Err(e) => Err(e),
        Ok(p) => Ok(ValueView::Int(p.local)),
    }
}

/// What reading the global side of a pair gives.
pub open spec fn global_outcome<T>(c: ContextView<T>, pair: i64) -> Result<ValueView, ErrorView> {
    match context::pair_outcome(c, pair) {
        Err(e) => Err(e),
        Ok(p) => Ok(ValueView::Int(p.global)),
    }
}

/// The local tensor of a pair.
pub fn pair_local<T>(context: &TorchContext<T>, pair: i64) -> (r: VmResult<Value>)
    ensures
        runtime::outcome(r) == local_outcome(context@, pair),
{
    match context.pair(pair) {
        Err(e) => Err(e),
        Ok(p) => return_int(p.local),
    }
}

/// The global tensor of a pair.
pub fn pair_global<T>(context: &TorchContext<T>, pair: i64) -> (r: VmResult<Value>)
    ensures
        runtime::outcome(r) == global_outcome(context@, pair),
{
    match context.pair(pair) {
        Err(e) => Err(e),
        Ok(p) => return_int(p.global),
    }
}

/// A pair gives back the two handles that it was made of, and the pairs made before it stay.
pub proof fn law_pair_gives_back<T>(c: ContextView<T>, pair: FfcPair, other: i64)
    requires
        c.wf(),
    ensures
        ({
            let after = context::with_pair(c, pair);
            &&& local_outcome(after, c.next_pair) == Ok::<ValueView, ErrorView>(
                ValueView::Int(pair.local),
            )
            &&& global_outcome(after, c.next_pair) == Ok::<ValueView, ErrorView>(
                ValueView::Int(pair.global),
            )
            &&& c.pairs.contains_key(other) ==> context::pair_outcome(after, other)
                == context::pair_outcome(c, other)
        }),
{
}

/// A pair is made of two tensors that are there, or of one and none; its two parts are then had
/// back, each as what it was.
pub proof fn law_pair_of_tensors<T>(c: ContextView<T>, local: i64, global: i64)
    requires
        c.wf(),
        c.next_pair < i64::MAX,
    ensures
        pair_refusal(c, local, global) is None <==> c.tensors.contains_key(local) && (global == 0
            || c.tensors.contains_key(global)),
        ({
            let after = context::with_pair(c, (FfcPair { local, global }));
            &&& !c.pairs.contains_key(c.next_pair)
            &&& local_outcome(after, c.next_pair) == Ok::<ValueView, ErrorView>(
                ValueView::Int(local),
            )
            &&& global_outcome(after, c.next_pair) == Ok::<ValueView, ErrorView>(
                ValueView::Int(global),
            )
            &&& after.next_pair > c.next_pair
            &&& after.tensors == c.tensors
        }),
{
}

} // verus!
