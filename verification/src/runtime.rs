//! The arguments, outputs, timers and roots of a run.
use std::time::Instant;

use vstd::prelude::*;
use vstd::string::*;

use crate::clock;
use crate::context;
use crate::context::{ContextView, TorchContext};
use crate::number;
use crate::text;
use crate::value::{
    host_error, return_int, ErrorView, FloatValue, FloatView, Value, ValueView, VmError, VmResult,
};

verus! {

/// An index, or the message that it is negative or too large.
pub open spec fn index_outcome(value: i64, label: Seq<char>) -> Result<int, ErrorView> {
    if 0 <= value <= usize::MAX {
        Ok(value as int)
    } else {
        Err(ErrorView::Host(label + " must be non-negative"@))
    }
}

/// Reads an integer as an index.
pub fn non_negative_index(value: i64, label: &str) -> (r: VmResult<usize>)
    ensures
        match r {
            Ok(index) => index_outcome(value, label@) == Ok::<int, ErrorView>(index as int),
            Err(e) => index_outcome(value, label@) == Err::<int, ErrorView>(e@),
        },
{
    if 0 <= value && value as u64 <= usize::MAX as u64 {
        Ok(value as usize)
    } else {
        Err(host_error(text::join2(label, " must be non-negative").as_str()))
    }
}

/// The result of a host function, as a model.
pub open spec fn outcome(r: VmResult<Value>) -> Result<ValueView, ErrorView> {
    match r {
        Ok(v) => Ok(v@),
        Err(e) => Err(e@),
    }
}

/// A message that ends in a number.
pub open spec fn numbered(message: Seq<char>, n: int) -> ErrorView {
    ErrorView::Host(message + text::decimal(n))
}

fn numbered_error(message: &str, n: usize) -> (r: VmError)
    ensures
        r@ == numbered(message@, n as int),
{
    host_error(text::join2(message, text::decimal_text(n as i128).as_str()).as_str())
}

/// What reading one input gives.
pub open spec fn input_outcome<T>(c: ContextView<T>, index: i64) -> Result<ValueView, ErrorView> {
    match index_outcome(index, "input index"@) {
        Err(e) => Err(e),
        Ok(i) => if i < c.inputs.len() {
            Ok(ValueView::Int(c.inputs[i]))
        } else {
            Err(numbered("unknown input index "@, i))
        },
    }
}

/// The handle of one input tensor.
pub fn runtime_input<T>(context: &TorchContext<T>, index: i64) -> (r: VmResult<Value>)
    ensures
        outcome(r) == input_outcome(context@, index),
{
    match non_negative_index(index, "input index") {
        Err(e) => Err(e),
        Ok(index) => {
            if index < context.inputs.len() {
                return_int(context.inputs[index])
            } else {
                Err(numbered_error("unknown input index ", index))
            }
        },
    }
}

/// The argument of the script in place `index`, if there is one.
pub open spec fn script_arg<T>(c: ContextView<T>, index: i64) -> Result<
    Option<Seq<char>>,
    ErrorView,
> {
    match index_outcome(index, "argument index"@) {
        Err(e) => Err(e),
        Ok(i) => if i < c.args.len() {
            Ok(Some(c.args[i]))
        } else {
            Ok(None)
        },
    }
}

fn find_script_arg<T>(context: &TorchContext<T>, index: i64) -> (r: VmResult<Option<&String>>)
    ensures
        match r {
            Ok(Some(s)) => script_arg(context@, index) == Ok::<Option<Seq<char>>, ErrorView>(
                Some(s@),
            ),
            Ok(None) => script_arg(context@, index) == Ok::<Option<Seq<char>>, ErrorView>(None),
            Err(e) => script_arg(context@, index) == Err::<Option<Seq<char>>, ErrorView>(e@),
        },
{
    match non_negative_index(index, "argument index") {
        Err(e) => Err(e),
        Ok(index) => {
            if index < context.args.len() {
                Ok(Some(&context.args[index]))
            } else {
                Ok(None)
            }
        },
    }
}

/// What reading one argument gives.
pub open spec fn arg_outcome<T>(c: ContextView<T>, index: i64) -> Result<ValueView, ErrorView> {
    match script_arg(c, index) {
        Err(e) => Err(e),
        Ok(Some(s)) => Ok(ValueView::String(s)),
        Ok(None) => Err(numbered("unknown runtime argument "@, index as int)),
    }
}

/// One argument of the script.
pub fn runtime_arg<T>(context: &TorchContext<T>, index: i64) -> (r: VmResult<Value>)
    ensures
        outcome(r) == arg_outcome(context@, index),
{
    match find_script_arg(context, index) {
        Err(e) => Err(e),
        Ok(Some(s)) => Ok(Value::String(s.clone())),
        Ok(None) => Err(numbered_error("unknown runtime argument ", index as usize)),
    }
}

/// The message on an argument that cannot be read.
pub open spec fn unreadable_arg(index: int, what: Seq<char>, reason: Seq<char>) -> ErrorView {
    ErrorView::Host(
        "runtime argument "@ + text::decimal(index) + " is not "@ + what + ": "@ + reason,
    )
}

fn unreadable_error(index: i64, what: &str, reason: &str) -> (r: VmError)
    ensures
        r@ == unreadable_arg(index as int, what@, reason@),
{
    let mut message: String = text::join3(
        "runtime argument ",
        text::decimal_text(index as i128).as_str(),
        " is not ",
    );
    message.append(what);
    message.append(": ");
    message.append(reason);
    host_error(message.as_str())
}

/// What an argument means as an integer.
pub open spec fn int_meaning(index: int, s: Seq<char>) -> Result<ValueView, ErrorView> {
    match number::i64_literal(s) {
        Some(n) => Ok(ValueView::Int(n as i64)),
        None => Err(unreadable_arg(index, "an int"@, number::i64_refusal(s))),
    }
}

fn read_int(index: i64, s: &str) -> (r: VmResult<Value>)
    ensures
        outcome(r) == int_meaning(index as int, s@),
{
    match number::parse_i64(s) {
        Ok(n) => return_int(n),
        Err(reason) => Err(unreadable_error(index, "an int", reason.as_str())),
    }
}

/// What reading one argument as an integer gives.
pub open spec fn arg_int_outcome<T>(c: ContextView<T>, index: i64) -> Result<
    ValueView,
    ErrorView,
> {
    match script_arg(c, index) {
        Err(e) => Err(e),
        Ok(Some(s)) => int_meaning(index as int, s),
        Ok(None) => Err(numbered("unknown runtime argument "@, index as int)),
    }
}

/// One argument of the script, read as an integer.
pub fn runtime_arg_int<T>(context: &TorchContext<T>, index: i64) -> (r: VmResult<Value>)
    ensures
        outcome(r) == arg_int_outcome(context@, index),
{
    match find_script_arg(context, index) {
        Err(e) => Err(e),
        Ok(Some(s)) => read_int(index, s.as_str()),
        Ok(None) => Err(numbered_error("unknown runtime argument ", index as usize)),
    }
}

/// What reading one argument as an integer with a default gives.
pub open spec fn arg_int_or_outcome<T>(c: ContextView<T>, index: i64, default: i64) -> Result<
    ValueView,
    ErrorView,
> {
    match script_arg(c, index) {
        Err(e) => Err(e),
        Ok(Some(s)) => int_meaning(index as int, s),
        Ok(None) => Ok(ValueView::Int(default)),
    }
}

/// One argument of the script, read as an integer, or `default` where it was not given.
pub fn runtime_arg_int_or<T>(context: &TorchContext<T>, index: i64, default: i64) -> (r: VmResult<
    Value,
>)
    ensures
        outcome(r) == arg_int_or_outcome(context@, index, default),
{
    match find_script_arg(context, index) {
        Err(e) => Err(e),
        Ok(Some(s)) => read_int(index, s.as_str()),
        Ok(None) => return_int(default),
    }
}

/// What an argument means as a floating-point number.
pub open spec fn float_meaning(index: int, s: Seq<char>) -> Result<ValueView, ErrorView> {
    if number::is_float_literal(s) {
        Ok(ValueView::Float(FloatView::Literal(s)))
    } else {
        Err(unreadable_arg(index, "a float"@, number::float_refusal(s)))
    }
}

/// What reading one argument as a floating-point number with a default gives.
pub open spec fn arg_float_or_outcome<T>(
    c: ContextView<T>,
    index: i64,
    default: FloatView,
) -> Result<ValueView, ErrorView> {
    match script_arg(c, index) {
        Err(e) => Err(e),
        Ok(Some(s)) => float_meaning(index as int, s),
        Ok(None) => Ok(ValueView::Float(default)),
    }
}

/// One argument of the script, read as a floating-point number, or `default` where it was not
/// given.
pub fn runtime_arg_float_or<T>(context: &TorchContext<T>, index: i64, default: FloatValue) -> (r:
    VmResult<Value>)
    ensures
        outcome(r) == arg_float_or_outcome(context@, index, default@),
{
    match find_script_arg(context, index) {
        Err(e) => Err(e),
        Ok(Some(s)) => match number::check_float(s.as_str()) {
            Ok(()) => Ok(Value::Float(FloatValue::Literal(s.clone()))),
            Err(reason) => Err(unreadable_error(index, "a float", reason.as_str())),
        },
        Ok(None) => Ok(Value::Float(default)),
    }
}

/// What reading one argument with a default gives.
pub open spec fn arg_or_outcome<T>(c: ContextView<T>, index: i64, default: Seq<char>) -> Result<
    ValueView,
    ErrorView,
> {
    match script_arg(c, index) {
        Err(e) => Err(e),
        Ok(Some(s)) => Ok(ValueView::String(s)),
        Ok(None) => Ok(ValueView::String(default)),
    }
}

/// One argument of the script, or `default` where it was not given.
pub fn runtime_arg_or<T>(context: &TorchContext<T>, index: i64, default: &str) -> (r: VmResult<
    Value,
>)
    ensures
        outcome(r) == arg_or_outcome(context@, index, default@),
{
    match find_script_arg(context, index) {
        Err(e) => Err(e),
        Ok(Some(s)) => Ok(Value::String(s.clone())),
        Ok(None) => Ok(Value::String(default.to_owned())),
    }
}

/// Publishes a tensor as the output of the script.
pub fn runtime_set_output<T>(context: &mut TorchContext<T>, tensor: i64) -> (r: VmResult<Value>)
    requires
        old(context).wf(),
    ensures
        final(context).wf(),
        match context::tensor_outcome(old(context)@, tensor) {
            Err(e) => {
                &&& outcome(r) == Err::<ValueView, ErrorView>(e)
                &&& final(context)@ == old(context)@
            },
            Ok(_) => {
                &&& outcome(r) == Ok::<ValueView, ErrorView>(ValueView::Bool(true))
                &&& final(context)@ == (ContextView { output: Some(tensor), ..old(context)@ })
            },
        },
{
    match context.tensor(tensor) {
        Err(e) => {
            return Err(e);
        },
        Ok(_) => {},
    }
    context.output = Some(tensor);
    Ok(Value::Bool(true))
}

/// Publishes a text as the output of the script.
pub fn runtime_set_text_output<T>(context: &mut TorchContext<T>, text: &str) -> (r: VmResult<Value>)
    requires
        old(context).wf(),
    ensures
        final(context).wf(),
        outcome(r) == Ok::<ValueView, ErrorView>(ValueView::Bool(true)),
        final(context)@ == (ContextView { text_output: Some(text@), ..old(context)@ }),
{
    context.text_output = Some(text.to_owned());
    Ok(Value::Bool(true))
}

/// The context after the timer of the run was started at `start`.
pub open spec fn timer_started<T>(c: ContextView<T>, start: Instant) -> ContextView<T> {
    ContextView {
        generation_started_at: Some(start),
        generated_tokens: None,
        decode_started_at: None,
        decode_tokens: None,
        generated_token_tensors: Seq::empty(),
        ..c
    }
}

/// Starts the timer of the run at `start`.
pub fn start_timer_at<T>(context: &mut TorchContext<T>, start: Instant) -> (r: VmResult<Value>)
    requires
        old(context).wf(),
    ensures
        final(context).wf(),
        outcome(r) == Ok::<ValueView, ErrorView>(ValueView::Bool(true)),
        final(context)@ == timer_started(old(context)@, start),
{
    context.generation_started_at = Some(start);
    context.generated_tokens = None;
    context.decode_started_at = None;
    context.decode_tokens = None;
    context.generated_token_tensors.clear();
    Ok(Value::Bool(true))
}

/// Starts the timer of the run.
pub fn runtime_start_timer<T>(context: &mut TorchContext<T>) -> (r: VmResult<Value>)
    requires
        old(context).wf(),
    ensures
        final(context).wf(),
        outcome(r) == Ok::<ValueView, ErrorView>(ValueView::Bool(true)),
        exists|start: Instant|
            call_ensures(clock::moment, (), start) && final(context)@ == #[trigger] timer_started(
                old(context)@,
                start,
            ),
{
    let start: Instant = clock::moment();
    start_timer_at(context, start)
}

/// The context after the timer of the decode steps was started at `start`.
pub open spec fn decode_timer_started<T>(c: ContextView<T>, start: Instant) -> ContextView<T> {
    ContextView { decode_started_at: Some(start), decode_tokens: None, ..c }
}

/// Starts the timer of the decode steps at `start`.
pub fn start_decode_timer_at<T>(context: &mut TorchContext<T>, start: Instant) -> (r: VmResult<
    Value,
>)
    requires
        old(context).wf(),
    ensures
        final(context).wf(),
        outcome(r) == Ok::<ValueView, ErrorView>(ValueView::Bool(true)),
        final(context)@ == decode_timer_started(old(context)@, start),
{
    context.decode_started_at = Some(start);
    context.decode_tokens = None;
    Ok(Value::Bool(true))
}

/// Starts the timer of the decode steps.
pub fn runtime_start_decode_timer<T>(context: &mut TorchContext<T>) -> (r: VmResult<Value>)
    requires
        old(context).wf(),
    ensures
        final(context).wf(),
        outcome(r) == Ok::<ValueView, ErrorView>(ValueView::Bool(true)),
        exists|start: Instant|
            call_ensures(clock::moment, (), start) && final(context)@
                == #[trigger] decode_timer_started(old(context)@, start),
{
    let start: Instant = clock::moment();
    start_decode_timer_at(context, start)
}

/// Stores the number of generated tokens.
pub fn runtime_set_token_count<T>(context: &mut TorchContext<T>, generated_tokens: i64) -> (r:
    VmResult<Value>)
    requires
        old(context).wf(),
    ensures
        final(context).wf(),
        if generated_tokens < 0 {
            &&& outcome(r) == Err::<ValueView, ErrorView>(
                ErrorView::Host("generated token count must be non-negative"@),
            )
            &&& final(context)@ == old(context)@
        } else {
            &&& outcome(r) == Ok::<ValueView, ErrorView>(ValueView::Bool(true))
            &&& final(context)@ == (ContextView {
                generated_tokens: Some(generated_tokens),
                ..old(context)@
            })
        },
{
    if generated_tokens < 0 {
        return Err(host_error("generated token count must be non-negative"));
    }
    context.generated_tokens = Some(generated_tokens);
    Ok(Value::Bool(true))
}

/// Stores the number of tokens of the decode steps.
pub fn runtime_set_decode_token_count<T>(context: &mut TorchContext<T>, decode_tokens: i64) -> (r:
    VmResult<Value>)
    requires
        old(context).wf(),
    ensures
        final(context).wf(),
        if decode_tokens < 0 {
            &&& outcome(r) == Err::<ValueView, ErrorView>(
                ErrorView::Host("decode token count must be non-negative"@),
            )
            &&& final(context)@ == old(context)@
        } else {
            &&& outcome(r) == Ok::<ValueView, ErrorView>(ValueView::Bool(true))
            &&& final(context)@ == (ContextView {
                decode_tokens: Some(decode_tokens),
                ..old(context)@
            })
        },
{
    if decode_tokens < 0 {
        return Err(host_error("decode token count must be non-negative"));
    }
    context.decode_tokens = Some(decode_tokens);
    Ok(Value::Bool(true))
}

/// Whether compacting keeps a handle: one of the two given, an input, a weight, or the output.
pub open spec fn is_root<T>(c: ContextView<T>, first: i64, second: i64, handle: i64) -> bool {
    ||| handle == first
    ||| handle == second
    ||| c.inputs.contains(handle)
    ||| c.weight_handles.values().contains(handle)
    ||| c.output == Some(handle)
}

/// The context after compacting.
pub open spec fn compacted<T>(c: ContextView<T>, first: i64, second: i64) -> ContextView<T> {
    let tensors = c.tensors.restrict(
        c.tensors.dom().filter(|handle: i64| is_root(c, first, second, handle)),
    );
    ContextView {
        tensors,
        pairs: Map::empty(),
        weight_handles: c.weight_handles.restrict(
            c.weight_handles.dom().filter(
                |name: Seq<char>| tensors.contains_key(c.weight_handles[name]),
            ),
        ),
        ..c
    }
}

/// Keeps the tensors of two handles and those that the run itself needs, and drops the others.
pub fn runtime_compact2<T>(context: &mut TorchContext<T>, first: i64, second: i64) -> (r: VmResult<
    Value,
>)
    requires
        old(context).wf(),
    ensures
        final(context).wf(),
        final(context)@ == compacted(old(context)@, first, second),
        if final(context)@.tensors.len() <= i64::MAX {
            outcome(r) == Ok::<ValueView, ErrorView>(
                ValueView::Int(final(context)@.tensors.len() as i64),
            )
        } else {
            outcome(r) == Err::<ValueView, ErrorView>(
                ErrorView::Host("tensor count exceeds RustScript integer range"@),
            )
        },
{
    let ghost before = context@;
    let mut keep: Vec<i64> = Vec::new();
    keep.push(first);
    keep.push(second);
    let mut weights: Vec<i64> = context.weight_handles.values();
    let ghost weight_values = weights@;
    let mut inputs: Vec<i64> = copy_handles(&context.inputs);
    keep.append(&mut inputs);
    keep.append(&mut weights);
    assert(keep@ =~= seq![first, second] + before.inputs + weight_values);
    match context.output {
        Some(output) => {
            keep.push(output);
        },
        None => {},
    }
    proof {
        lemma_roots(before, first, second, weight_values, keep@);
        assert(before.tensors.restrict(keep@.to_set()) =~= compacted(
            before,
            first,
            second,
        ).tensors);
    }
    context.tensors.retain_in(&keep);
    context.pairs.clear();
    context.weight_handles.retain_in(&context.tensors);
    assert(context@ =~= compacted(before, first, second));
    let count: usize = context.tensors.len();
    if count as u64 <= i64::MAX as u64 {
        return_int(count as i64)
    } else {
        Err(host_error("tensor count exceeds RustScript integer range"))
    }
}

fn copy_handles(handles: &Vec<i64>) -> (r: Vec<i64>)
    ensures
        r@ == handles@,
{
    let mut out: Vec<i64> = Vec::new();
    let mut i: usize = 0;
    while i < handles.len()
        invariant
            i <= handles@.len(),
            out@ == handles@.take(i as int),
        decreases handles@.len() - i,
    {
        out.push(handles[i]);
        i = i + 1;
    }
    out
}

proof fn lemma_roots<T>(
    c: ContextView<T>,
    first: i64,
    second: i64,
    weights: Seq<i64>,
    keep: Seq<i64>,
)
    requires
        forall|v: i64| weights.contains(v) <==> c.weight_handles.values().contains(v),
        keep == (match c.output {
            Some(output) => (seq![first, second] + c.inputs + weights).push(output),
            None => seq![first, second] + c.inputs + weights,
        }),
    ensures
        forall|h: i64| keep.to_set().contains(h) <==> is_root(c, first, second, h),
{
    let head = seq![first, second];
    let n = c.inputs.len() as int;
    let m = weights.len() as int;
    assert forall|h: i64| keep.to_set().contains(h) <==> is_root(c, first, second, h) by {
        if keep.contains(h) {
            let k = choose|k: int| 0 <= k < keep.len() && keep[k] == h;
            if 2 <= k < 2 + n {
                assert(c.inputs[k - 2] == h);
            } else if 2 + n <= k < 2 + n + m {
                assert(weights[k - 2 - n] == h);
                assert(weights.contains(h));
            }
        }
        if is_root(c, first, second, h) {
            if h == first {
                assert(keep[0] == h);
            } else if h == second {
                assert(keep[1] == h);
            } else if c.inputs.contains(h) {
                let k = choose|k: int| 0 <= k < c.inputs.len() && c.inputs[k] == h;
                assert(keep[2 + k] == h);
            } else if c.weight_handles.values().contains(h) {
                assert(weights.contains(h));
                let k = choose|k: int| 0 <= k < weights.len() && weights[k] == h;
                assert(keep[2 + n + k] == h);
            } else {
                assert(keep[2 + n + m] == h);
            }
        }
    }
}

/// Compacting keeps every tensor that the run or the caller still needs, and no other; a handle
/// that is kept names the same tensor as before.
pub proof fn law_compacting_keeps_roots<T>(
    c: ContextView<T>,
    first: i64,
    second: i64,
    handle: i64,
)
    ensures
        ({
            let after = compacted(c, first, second);
            &&& after.tensors.contains_key(handle) <==> c.tensors.contains_key(handle) && is_root(
                c,
                first,
                second,
                handle,
            )
            &&& after.tensors.contains_key(handle) ==> after.tensors[handle] == c.tensors[handle]
        }),
{
}

/// Compacting keeps the cached handle of every weight whose tensor is there.
pub proof fn law_compacting_keeps_weights<T>(
    c: ContextView<T>,
    first: i64,
    second: i64,
    name: Seq<char>,
)
    requires
        c.weight_handles.contains_key(name),
        c.tensors.contains_key(c.weight_handles[name]),
    ensures
        ({
            let after = compacted(c, first, second);
            &&& after.weight_handles.contains_key(name)
            &&& after.weight_handles[name] == c.weight_handles[name]
            &&& after.tensors.contains_key(c.weight_handles[name])
        }),
{
    assert(c.weight_handles.values().contains(c.weight_handles[name]));
}

/// An index that is not negative is taken as it is.
pub proof fn law_index(value: i64, label: Seq<char>)
    ensures
        0 <= value <= usize::MAX ==> index_outcome(value, label) == Ok::<int, ErrorView>(
            value as int,
        ),
        value < 0 ==> index_outcome(value, label) == Err::<int, ErrorView>(
            ErrorView::Host(label + " must be non-negative"@),
        ),
{
}

/// An input or an argument of a run is the one in the place asked for; behind the last one, a
/// default stands where there is one, and else it is refused. A number that is written as an
/// argument is read as that number.
pub proof fn law_run_arguments<T>(
    c: ContextView<T>,
    index: i64,
    n: i64,
    default: i64,
    text: Seq<char>,
)
    requires
        0 <= index <= usize::MAX,
    ensures
        index < c.inputs.len() ==> input_outcome(c, index) == Ok::<ValueView, ErrorView>(
            ValueView::Int(c.inputs[index as int]),
        ),
        index >= c.inputs.len() ==> input_outcome(c, index) is Err,
        index < c.args.len() ==> {
            &&& arg_outcome(c, index) == Ok::<ValueView, ErrorView>(
                ValueView::String(c.args[index as int]),
            )
            &&& arg_or_outcome(c, index, text) == Ok::<ValueView, ErrorView>(
                ValueView::String(c.args[index as int]),
            )
        },
        index < c.args.len() && c.args[index as int] == text::decimal(n as int) ==> {
            &&& arg_int_outcome(c, index) == Ok::<ValueView, ErrorView>(ValueView::Int(n))
            &&& arg_int_or_outcome(c, index, default) == Ok::<ValueView, ErrorView>(
                ValueView::Int(n),
            )
        },
        index < c.args.len() && number::is_float_literal(c.args[index as int])
            ==> arg_float_or_outcome(c, index, FloatView::Literal(text)) == Ok::<
            ValueView,
            ErrorView,
        >(ValueView::Float(FloatView::Literal(c.args[index as int]))),
        index >= c.args.len() ==> {
            &&& arg_outcome(c, index) is Err
            &&& arg_int_outcome(c, index) is Err
            &&& arg_or_outcome(c, index, text) == Ok::<ValueView, ErrorView>(
                ValueView::String(text),
            )
            &&& arg_int_or_outcome(c, index, default) == Ok::<ValueView, ErrorView>(
                ValueView::Int(default),
            )
            &&& arg_float_or_outcome(c, index, FloatView::Literal(text)) == Ok::<
                ValueView,
                ErrorView,
            >(ValueView::Float(FloatView::Literal(text)))
        },
{
    number::law_decimal_reads_back(n as int);
}

/// Starting the clock of a run begins its counts anew; starting that of the decoding begins the
/// count of decoded tokens anew and leaves the run's own clock running.
pub proof fn law_clocks_start<T>(c: ContextView<T>, start: Instant)
    ensures
        timer_started(c, start).generation_started_at == Some(start),
        timer_started(c, start).generated_tokens is None,
        timer_started(c, start).decode_started_at is None,
        timer_started(c, start).decode_tokens is None,
        timer_started(c, start).generated_token_tensors.len() == 0,
        timer_started(c, start).tensors == c.tensors,
        decode_timer_started(c, start).decode_started_at == Some(start),
        decode_timer_started(c, start).decode_tokens is None,
        decode_timer_started(c, start).generation_started_at == c.generation_started_at,
        decode_timer_started(c, start).generated_tokens == c.generated_tokens,
        decode_timer_started(c, start).generated_token_tensors == c.generated_token_tensors,
{
}

/// Compacting keeps the two tensors asked for, the inputs, the weights that were handed out and the
/// output, with what they hold, and gives up every other tensor and every pair.
pub proof fn law_compacting_keeps_what_is_in_use<T>(
    c: ContextView<T>,
    first: i64,
    second: i64,
    handle: i64,
)
    requires
        c.tensors.contains_key(handle),
    ensures
        ({
            let after = compacted(c, first, second);
            let used = handle == first || handle == second || c.inputs.contains(handle) || c.output
                == Some(handle) || exists|name: Seq<char>|
                c.weight_handles.contains_key(name) && #[trigger] c.weight_handles[name] == handle;
            &&& after.tensors.contains_key(handle) <==> used
            &&& used ==> after.tensors[handle] == c.tensors[handle]
            &&& after.pairs.dom().len() == 0
            &&& after.inputs == c.inputs
            &&& after.output == c.output
            &&& after.weights == c.weights
            &&& after.cache == c.cache
            &&& after.next_tensor == c.next_tensor
        }),
{
    if c.weight_handles.values().contains(handle) {
        let name = choose|name: Seq<char>|
            c.weight_handles.contains_key(name) && #[trigger] c.weight_handles[name] == handle;
        assert(c.weight_handles[name] == handle);
    }
}

} // verus!
