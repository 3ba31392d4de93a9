//! What the functions promise of each other: what one call gives back of another, and what each
//! does with what it is handed.
use vstd::prelude::*;

use crate::cli::{
    cli_add_argument, cli_add_option, cli_get, cli_metavar, cli_refer, cli_required,
    cli_set_description, CliTables, ValueKind,
};
use crate::cli_laws;
use crate::cli_parse::cli_parse_args;
use crate::context;
use crate::context::{return_tensor, return_tensor_pair, HostTensor, Kind, TorchContext};
use crate::device::Device;
use crate::images;
use crate::images::{Contour, ContourView, GrayImage, RgbImage};
use crate::labels;
use crate::labels::{format_labels, label_request, LabelRequest};
use crate::lama;
use crate::lama::{
    boxes_from_contours, boxes_from_mask, check_sizes, crop_box, crop_image, crop_mask,
    LamaRustScript,
};
use crate::number;
use crate::pair::{pair_global, pair_local, pair_new};
use crate::runtime;
use crate::runtime::{
    runtime_arg, runtime_arg_int, runtime_arg_int_or, runtime_arg_or, runtime_compact2,
    runtime_input, runtime_set_decode_token_count, runtime_set_output, runtime_set_text_output,
    runtime_set_token_count,
};
use crate::support;
use crate::text;
use crate::tokenizer;
use crate::tokenizer::{
    chat_prompt_text, generated_ids, push_generated_token, token_row, token_row_padded,
    tokenizer_clear_generated_tokens, tokenizer_decode_generated,
    tokenizer_decode_generated_tokens, tokenizer_encode_chat, tokenizer_encode_padded,
    tokenizer_is_eos, tokenizer_single_token, Encoded, IntTensor,
};
use crate::value::{FloatView, Value, ValueView, VmError, VmResult};
use crate::weights;
use crate::weights::{
    keep_fused_weight, return_weight_tensor, weights_get, weights_get_indexed, weights_get_optional,
    weights_get_or, weights_store, WeightStep,
};

verus! {

/// Whether a script gets what an argument reads as, where a value of this kind is asked for.
pub open spec fn is_got(kind: ValueKind, raw: Seq<char>, got: VmResult<Value>) -> bool {
    match got {
        Err(_) => false,
        Ok(v) => match kind {
            ValueKind::String => v@ == ValueView::String(raw),
            ValueKind::Int => v@ is Int && number::signed_literal(raw) == Some(v@->Int_0 as int),
            ValueKind::Float => v@ == ValueView::Float(FloatView::Literal(raw)),
            ValueKind::Bool => (v@ == ValueView::Bool(true) && raw == "true"@) || (v@
                == ValueView::Bool(false) && raw == "false"@),
        },
    }
}

/// After a parse that succeeds, on arguments of which none begins with a dash, the positional
/// references are read as these arguments, the first as the first, and so on.
pub proof fn law_positionals_are_got(
    cli: &mut CliTables,
    args: &Vec<String>,
    parser: i64,
    r: VmResult<Value>,
    after: CliTables,
    i: int,
    got: VmResult<Value>,
)
    requires
        old(cli)@.wf(),
        call_ensures(cli_parse_args, (cli, args, parser), r),
        r is Ok,
        forall|k: int|
            0 <= k < args@.len() ==> (#[trigger] args@[k])@.len() == 0 || args@[k]@[0] != '-',
        0 <= i < args@.len(),
        after == *final(cli),
        ({
            let places = old(cli)@.parsers[parser].references.filter(
                |h: i64| old(cli)@.references[h].positional,
            );
            i < places.len() ==> call_ensures(cli_get, (&after, places[i]), got)
        }),
    ensures
        ({
            let places = old(cli)@.parsers[parser].references.filter(
                |h: i64| old(cli)@.references[h].positional,
            );
            &&& args@.len() <= places.len()
            &&& is_got(old(cli)@.references[places[i]].kind, args@[i]@, got)
        }),
{
    let before = old(cli)@;
    let models = text::views(args@);
    assert forall|k: int| 0 <= k < models.len() implies (#[trigger] models[k]).len() == 0
        || models[k][0] != '-' by {
        assert(models[k] == args@[k]@);
    }
    cli_laws::law_positionals_in_order(before, models, parser);
    let handles = before.parsers[parser].references;
    let pred = |h: i64| before.references[h].positional;
    let places = handles.filter(pred);
    let h = places[i];
    assert(models[i] == args@[i]@);
    handles.lemma_filter_contains_rev(pred, h);
    let k = choose|k: int| 0 <= k < handles.len() && handles[k] == h;
    cli_laws::law_required_are_met(before, models, parser, k);
}

/// What is said of a reference or a parser is kept of it as it was said.
pub proof fn law_reference_is_described(
    cli: &mut CliTables,
    h: i64,
    names: &[Value],
    name: &str,
    action: &str,
    help: &str,
    r: VmResult<Value>,
)
    requires
        old(cli)@.wf(),
        old(cli)@.references.contains_key(h),
    ensures
        call_ensures(cli_add_option, (cli, h, names, action, help), r) && r is Ok ==> {
            let now = final(cli)@.references[h];
            &&& now.names.len() == names@.len()
            &&& forall|i: int|
                0 <= i < names@.len() ==> (#[trigger] names@[i]) is String && now.names[i]
                    == names@[i]->String_0@
            &&& now.help == help@
            &&& now.value == old(cli)@.references[h].value
            &&& r->Ok_0 == Value::Int(h)
        },
        call_ensures(cli_add_argument, (cli, h, name, action, help), r) && r is Ok ==> {
            let now = final(cli)@.references[h];
            &&& now.names == seq![name@]
            &&& now.positional
            &&& now.help == help@
            &&& r->Ok_0 == Value::Int(h)
        },
        call_ensures(cli_required, (cli, h), r) ==> r is Ok && final(cli)@.references[h].required,
        call_ensures(cli_metavar, (cli, h, name), r) ==> r is Ok
            && final(cli)@.references[h].metavar == Some(name@),
        call_ensures(cli_set_description, (cli, h, help), r) && r is Ok
            ==> final(cli)@.parsers[h].description == help@,
{
    cli_laws::law_reference_is_described(old(cli)@, h, names@, name@, action@, help@);
}

/// A reference that is made has a handle that named none before, and holds the value it was made
/// with.
pub proof fn law_reference_is_made(
    cli: &mut CliTables,
    parser: i64,
    initial: Value,
    r: VmResult<Value>,
)
    requires
        old(cli)@.wf(),
        old(cli)@.next_handle < i64::MAX,
        call_ensures(cli_refer, (cli, parser, initial), r),
        r is Ok,
    ensures
        r->Ok_0 is Int,
        !old(cli)@.references.contains_key(r->Ok_0->Int_0),
        final(cli)@.references.contains_key(r->Ok_0->Int_0),
        final(cli)@.references[r->Ok_0->Int_0].value == initial@,
        final(cli)@.references[r->Ok_0->Int_0].parser == parser,
        final(cli)@.parsers[parser].references.last() == r->Ok_0->Int_0,
{
}

/// What is decoded are the tokens behind the prompt, all of them and in their order.
pub proof fn law_generated_ids(ids: &Vec<i64>, from: usize, r: Vec<u32>)
    requires
        call_ensures(generated_ids, (ids, from), r),
        from <= ids@.len(),
        forall|i: int| from <= i < ids@.len() ==> 0 <= #[trigger] ids@[i] <= u32::MAX,
    ensures
        r@.len() == ids@.len() - from,
        forall|k: int| 0 <= k < r@.len() ==> #[trigger] r@[k] == ids@[from + k],
{
    tokenizer::law_generated_tokens(ids@, from as int);
}

/// Whether these are the tokens from a place on, all of them and in their order.
pub open spec fn are_tokens_from(ids: Seq<i64>, from: int, tokens: Seq<u32>) -> bool {
    &&& tokens.len() == ids.len() - from
    &&& forall|k: int| 0 <= k < tokens.len() ==> #[trigger] tokens[k] == ids[from + k]
}

/// The text of generated tokens is one that a plain tokenizer can give for the tokens behind the
/// prompt, all of them and in their order; that of gathered tokens one that it can give for all.
pub proof fn law_generated_text<T, B: FnOnce(&str, &Vec<u32>, bool) -> Result<String, String>>(
    context: &TorchContext<T>,
    ids: &Vec<i64>,
    from: usize,
    beyond: B,
    r: VmResult<Value>,
)
    requires
        from <= ids@.len(),
        forall|i: int| 0 <= i < ids@.len() ==> 0 <= #[trigger] ids@[i] <= u32::MAX,
        context@.tokenizer is Some,
        support::is_decodable(context@.tokenizer->0),
        r is Ok,
    ensures
        call_ensures(tokenizer_decode_generated::<T, B>, (context, ids, from, beyond), r)
            ==> exists|tokens: Seq<u32>, given: Seq<char>|
            {
                &&& #[trigger] tokenizer::may_decode(
                    context@.tokenizer->0,
                    tokens,
                    true,
                    Ok(given),
                )
                &&& are_tokens_from(ids@, from as int, tokens)
                &&& r->Ok_0@ == ValueView::String(given)
            },
        call_ensures(tokenizer_decode_generated_tokens::<T, B>, (context, ids, beyond), r)
            ==> exists|tokens: Seq<u32>, given: Seq<char>|
            {
                &&& #[trigger] tokenizer::may_decode(
                    context@.tokenizer->0,
                    tokens,
                    true,
                    Ok(given),
                )
                &&& are_tokens_from(ids@, 0, tokens)
                &&& r->Ok_0@ == ValueView::String(given)
            },
{
    let c = context@;
    tokenizer::law_generated_tokens(ids@, from as int);
    tokenizer::law_generated_tokens(ids@, 0);
    if call_ensures(tokenizer_decode_generated::<T, B>, (context, ids, from, beyond), r) {
        let tokens = tokenizer::token_ids(ids@, from as int);
        let d = choose|d: Result<Seq<char>, Seq<char>>| #[trigger]
            tokenizer::decodes(c.tokenizer->0, tokens, true, beyond, d) && runtime::outcome(r)
                == tokenizer::text_outcome(d);
        assert(tokenizer::may_decode(c.tokenizer->0, tokens, true, Ok(d->Ok_0)));
    }
    if call_ensures(tokenizer_decode_generated_tokens::<T, B>, (context, ids, beyond), r) {
        let tokens = tokenizer::token_ids(ids@, 0);
        let d = choose|d: Result<Seq<char>, Seq<char>>| #[trigger]
            tokenizer::decodes(c.tokenizer->0, tokens, true, beyond, d) && runtime::outcome(r)
                == tokenizer::text_outcome(d);
        assert(tokenizer::may_decode(c.tokenizer->0, tokens, true, Ok(d->Ok_0)));
    }
}

/// The row of a chat prompt holds tokens that a plain tokenizer can give for the prompt of the
/// system text and the user text that a script gives, without special ones.
pub proof fn law_chat_is_encoded<T, B: FnOnce(&str, &str, bool) -> Result<Encoded, String>>(
    context: &TorchContext<T>,
    args: &[Value],
    system: &str,
    user: &str,
    beyond: B,
    prompt: String,
    r: VmResult<IntTensor>,
)
    requires
        args@.len() >= 2,
        args@[0] is String && args@[0]->String_0@ == system@,
        args@[1] is String && args@[1]->String_0@ == user@,
        call_ensures(chat_prompt_text, (system, user), prompt),
        call_ensures(tokenizer_encode_chat::<T, B>, (context, args, beyond), r),
        context@.tokenizer is Some,
        support::is_encodable(context@.tokenizer->0),
        r is Ok,
    ensures
        exists|tokens: Seq<u32>, offsets: Seq<(usize, usize)>|
            {
                &&& #[trigger] tokenizer::may_encode(
                    context@.tokenizer->0,
                    prompt@,
                    false,
                    Ok((tokens, offsets)),
                )
                &&& r->Ok_0.values@.len() == tokens.len()
                &&& forall|i: int|
                    0 <= i < tokens.len() ==> r->Ok_0.values@[i] == #[trigger] tokens[i]
                &&& r->Ok_0.size@ == seq![1i64, tokens.len() as i64]
            },
{
    let c = context@;
    let e = choose|e: tokenizer::EncodedView| #[trigger]
        tokenizer::encodes(c.tokenizer->0, prompt@, false, beyond, e) && tokenizer::tensor_result(
            r,
        ) == tokenizer::row_outcome(e);
    let (tokens, offsets) = e->Ok_0;
    assert(tokenizer::may_encode(c.tokenizer->0, prompt@, false, Ok((tokens, offsets))));
}

/// The padded row of a text holds tokens that a plain tokenizer can give for the text that a script
/// gives, filled up to the length and with the token it gives.
pub proof fn law_padded_text_is_encoded<
    T,
    B: FnOnce(&str, &str, bool) -> Result<Encoded, String>,
>(
    context: &TorchContext<T>,
    args: &[Value],
    len: i64,
    pad: i64,
    special: bool,
    beyond: B,
    r: VmResult<(IntTensor, IntTensor)>,
)
    requires
        args@.len() >= 4,
        args@[0] is String,
        args@[1] == Value::Int(len),
        args@[2] == Value::Int(pad),
        args@[3] == Value::Bool(special),
        0 <= len <= usize::MAX,
        call_ensures(tokenizer_encode_padded::<T, B>, (context, args, beyond), r),
        context@.tokenizer is Some,
        support::is_encodable(context@.tokenizer->0),
        r is Ok,
    ensures
        exists|tokens: Seq<u32>, offsets: Seq<(usize, usize)>|
            {
                let row = r->Ok_0.0.values@;
                let mask = r->Ok_0.1.values@;
                &&& #[trigger] tokenizer::may_encode(
                    context@.tokenizer->0,
                    args@[0]->String_0@,
                    special,
                    Ok((tokens, offsets)),
                )
                &&& row.len() == len && mask.len() == len
                &&& forall|i: int|
                    0 <= i < len && i < tokens.len() ==> row[i] == #[trigger] tokens[i] && mask[i]
                        == 1
                &&& forall|i: int|
                    tokens.len() <= i < len ==> #[trigger] row[i] == pad && mask[i] == 0
            },
{
    let c = context@;
    let e = choose|e: tokenizer::EncodedView| #[trigger]
        tokenizer::encodes(c.tokenizer->0, args@[0]->String_0@, special, beyond, e)
            && tokenizer::pair_result(r) == tokenizer::padded_outcome(e, len as nat, pad);
    let (tokens, offsets) = e->Ok_0;
    tokenizer::law_padded_row(tokens, offsets, len as nat, pad, Seq::empty());
    assert(tokenizer::may_encode(
        c.tokenizer->0,
        args@[0]->String_0@,
        special,
        Ok((tokens, offsets)),
    ));
}

/// The end of a text is the token 7, and a single token is a row of that token alone.
pub proof fn law_single_tokens<T>(
    context: &TorchContext<T>,
    args: &[Value],
    token: i64,
    eos: VmResult<Value>,
    row: VmResult<IntTensor>,
)
    requires
        args@.len() >= 1,
        args@[0] == Value::Int(token),
        call_ensures(tokenizer_is_eos::<T>, (context, args), eos),
        call_ensures(tokenizer_single_token::<T>, (context, args), row),
    ensures
        eos == Ok::<Value, VmError>(Value::Bool(token == 7)),
        row is Ok,
        row->Ok_0.values@ == seq![token],
        row->Ok_0.size@ == seq![1i64, 1i64],
{
}

/// Tokens that are gathered come behind those that were, until they are cleared.
pub proof fn law_tokens_are_gathered<T>(
    context: &mut TorchContext<T>,
    tensor: HostTensor<T>,
    args: &[Value],
    r: VmResult<Value>,
)
    ensures
        call_ensures(push_generated_token::<T>, (context, tensor), r) ==> {
            let then = old(context)@.generated_token_tensors;
            let now = final(context)@.generated_token_tensors;
            &&& now.len() == then.len() + 1
            &&& now.last() == tensor
            &&& now.drop_last() == then
            &&& final(context)@.tensors == old(context)@.tensors
        },
        call_ensures(tokenizer_clear_generated_tokens::<T>, (context, args), r) && args@.len() == 0
            ==> final(context)@.generated_token_tensors.len() == 0 && final(context)@.tensors
            == old(context)@.tensors,
{
    let then = old(context)@.generated_token_tensors;
    assert(then.push(tensor).drop_last() =~= then);
}

/// A weight asked for by prefix, index and suffix is the one asked for by the name made of the
/// prefix, the digits of the index and the suffix.
pub proof fn law_indexed_weight<T>(
    context: &TorchContext<T>,
    indexed: &[Value],
    named: &[Value],
    index: i64,
    r: VmResult<WeightStep>,
    s: VmResult<WeightStep>,
)
    requires
        indexed@.len() >= 3,
        indexed@[0] is String,
        indexed@[1] == Value::Int(index),
        indexed@[2] is String,
        named@.len() >= 1,
        named@[0] is String,
        named@[0]->String_0@ == indexed@[0]->String_0@ + text::decimal(index as int)
            + indexed@[2]->String_0@,
        call_ensures(weights_get_indexed::<T>, (context, indexed), r),
        call_ensures(weights_get::<T>, (context, named), s),
    ensures
        weights::step_result(r) == weights::step_result(s),
        r matches Ok(WeightStep::Take { name, source }) ==> name@ == named@[0]->String_0@ && source@
            == named@[0]->String_0@ && context@.weights.contains_key(name@),
{
    let prefix = indexed@[0]->String_0@;
    let suffix = indexed@[2]->String_0@;
    weights::law_indexed_weight(context@, indexed@, prefix, index, suffix, index);
    weights::law_weight_by_name(context@, named@[0]->String_0@);
}

/// A weight that was loaded is taken by its own name, and a weight with a fallback is taken from
/// the fallback where it is not there.
pub proof fn law_weight_is_got<T>(
    context: &mut TorchContext<T>,
    args: &[Value],
    name: Seq<char>,
    fallback: Seq<char>,
    r: VmResult<WeightStep>,
)
    requires
        args@.len() >= 2,
        args@[0] is String && args@[0]->String_0@ == name,
        args@[1] is String && args@[1]->String_0@ == fallback,
        !old(context)@.weight_handles.contains_key(name),
        !old(context)@.weight_handles.contains_key(fallback),
    ensures
        call_ensures(weights_get_or::<T>, (context, args), r) ==> {
            &&& old(context)@.weights.contains_key(name) ==> r is Ok && r->Ok_0@
                == weights::StepView::Take(name, name)
            &&& weights::source_outcome(old(context)@, name) is Err
                && old(context)@.weights.contains_key(fallback) ==> r is Ok && r->Ok_0@
                == weights::StepView::Take(name, fallback)
            &&& final(context)@ == old(context)@
        },
        call_ensures(weights_get_optional::<T>, (context, args), r) ==> {
            &&& old(context)@.weights.contains_key(name) ==> r is Ok && r->Ok_0@
                == weights::StepView::Take(name, name) && final(context)@ == old(context)@
            &&& weights::source_outcome(old(context)@, name) is Err ==> r is Ok && r->Ok_0@
                == weights::StepView::Done(ValueView::Int(old(context)@.next_missing_weight))
        },
{
}

/// A weight that was handed out is handed out again under the same handle, as the same tensor.
pub proof fn law_weight_is_handed_out<T>(
    context: &mut TorchContext<T>,
    name: &str,
    tensor: HostTensor<T>,
    r: VmResult<Value>,
    after: TorchContext<T>,
    args: &[Value],
    s: VmResult<WeightStep>,
)
    requires
        old(context).wf(),
        old(context)@.next_tensor < i64::MAX,
        call_ensures(return_weight_tensor::<T>, (context, name, tensor), r),
        after == *final(context),
        args@.len() >= 1,
        args@[0] is String && args@[0]->String_0@ == name@,
        call_ensures(weights_get::<T>, (&after, args), s),
    ensures
        r is Ok && r->Ok_0 is Int,
        s is Ok,
        s->Ok_0@ == weights::StepView::Done(ValueView::Int(r->Ok_0->Int_0)),
        after@.tensors[r->Ok_0->Int_0] == tensor,
{
}

/// The weights that were read are stored under their names, and their number is given back.
pub proof fn law_weights_are_stored<T>(
    context: &mut TorchContext<T>,
    path: &str,
    kind: Option<Kind>,
    tensors: Vec<(String, HostTensor<T>)>,
    r: VmResult<Value>,
    i: int,
)
    requires
        call_ensures(weights_store::<T>, (context, path, kind, tensors), r),
        weights::is_last_named(tensors@, tensors@[i].0@, i),
    ensures
        final(context)@.weights.contains_key(tensors@[i].0@),
        final(context)@.weights[tensors@[i].0@] == tensors@[i].1,
        final(context)@.weights_path == Some(path@),
        final(context)@.weights_kind == kind,
        r is Ok ==> r->Ok_0@ == ValueView::Int(final(context)@.weights.len() as i64),
        final(context)@.tensors == old(context)@.tensors,
{
    weights::law_weights_are_kept(tensors@, tensors@[i].0@);
}

/// A fused weight that was kept is taken by its name, and no other weight changes.
pub proof fn law_fused_weight_is_kept<T>(
    context: &mut TorchContext<T>,
    name: &str,
    tensor: HostTensor<T>,
    other: Seq<char>,
)
    requires
        call_ensures(keep_fused_weight::<T>, (context, name, tensor), ()),
    ensures
        final(context)@.weights.contains_key(name@),
        final(context)@.weights[name@] == tensor,
        other != name@ ==> final(context)@.weights[other] == old(context)@.weights[other],
        final(context)@.tensors == old(context)@.tensors,
{
}

/// A tensor that is given back to a script is found under its handle, which named none before.
pub proof fn law_tensor_is_returned<T>(
    context: &mut TorchContext<T>,
    tensor: HostTensor<T>,
    r: VmResult<Value>,
    other: i64,
)
    requires
        old(context).wf(),
        old(context)@.next_tensor < i64::MAX,
        call_ensures(return_tensor::<T>, (context, tensor), r),
    ensures
        r is Ok && r->Ok_0 is Int,
        !old(context)@.tensors.contains_key(r->Ok_0->Int_0),
        final(context)@.tensors[r->Ok_0->Int_0] == tensor,
        old(context)@.tensors.contains_key(other) ==> final(context)@.tensors.contains_key(other)
            && final(context)@.tensors[other] == old(context)@.tensors[other],
        final(context)@.weights == old(context)@.weights,
{
}

/// A pair that is made of two handles gives each of them back as what it was.
pub proof fn law_pair_is_given_back<T>(
    context: &mut TorchContext<T>,
    local: i64,
    global: i64,
    r: VmResult<Value>,
    after: TorchContext<T>,
    first: VmResult<Value>,
    second: VmResult<Value>,
)
    requires
        old(context).wf(),
        old(context)@.next_pair < i64::MAX,
        call_ensures(pair_new::<T>, (context, local, global), r),
        r is Ok,
        after == *final(context),
        r->Ok_0 is Int ==> call_ensures(pair_local::<T>, (&after, r->Ok_0->Int_0), first),
        r->Ok_0 is Int ==> call_ensures(pair_global::<T>, (&after, r->Ok_0->Int_0), second),
    ensures
        first is Ok && first->Ok_0@ == ValueView::Int(local),
        second is Ok && second->Ok_0@ == ValueView::Int(global),
{
}

/// Two tensors that are given back as a pair are found as its local and its global part.
pub proof fn law_tensor_pair_is_returned<T>(
    context: &mut TorchContext<T>,
    local: HostTensor<T>,
    global: HostTensor<T>,
    r: VmResult<Value>,
    after: TorchContext<T>,
    first: VmResult<Value>,
    second: VmResult<Value>,
)
    requires
        old(context).wf(),
        old(context)@.next_tensor < i64::MAX - 1,
        old(context)@.next_pair < i64::MAX,
        call_ensures(return_tensor_pair::<T>, (context, local, global), r),
        after == *final(context),
        r is Ok && r->Ok_0 is Int ==> call_ensures(
            pair_local::<T>,
            (&after, r->Ok_0->Int_0),
            first,
        ),
        r is Ok && r->Ok_0 is Int ==> call_ensures(
            pair_global::<T>,
            (&after, r->Ok_0->Int_0),
            second,
        ),
    ensures
        r is Ok && r->Ok_0 is Int,
        first is Ok && first->Ok_0@ is Int && after@.tensors[first->Ok_0@->Int_0] == local,
        second is Ok && second->Ok_0@ is Int && after@.tensors[second->Ok_0@->Int_0] == global,
{
}

/// What a run publishes is what it ends with: the tensor, the text and the counts that it set last.
pub proof fn law_published_is_kept<T>(
    context: &mut TorchContext<T>,
    handle: i64,
    text: &str,
    count: i64,
    r: VmResult<Value>,
)
    requires
        old(context).wf(),
    ensures
        call_ensures(runtime_set_output::<T>, (context, handle), r) ==> {
            &&& r is Ok <==> old(context)@.tensors.contains_key(handle)
            &&& r is Ok ==> final(context)@.output == Some(handle) && context::finish_outcome(
                final(context)@,
            ) == Ok::<HostTensor<T>, Seq<char>>(old(context)@.tensors[handle])
            &&& r is Err ==> final(context)@ == old(context)@
        },
        call_ensures(runtime_set_text_output::<T>, (context, text), r) ==> r is Ok
            && final(context)@.text_output == Some(text@) && final(context)@.output
            == old(context)@.output,
        call_ensures(runtime_set_token_count::<T>, (context, count), r) ==> {
            &&& r is Ok <==> count >= 0
            &&& r is Ok ==> final(context)@.generated_tokens == Some(count)
            &&& final(context)@.decode_tokens == old(context)@.decode_tokens
        },
        call_ensures(runtime_set_decode_token_count::<T>, (context, count), r) ==> {
            &&& r is Ok <==> count >= 0
            &&& r is Ok ==> final(context)@.decode_tokens == Some(count)
            &&& final(context)@.generated_tokens == old(context)@.generated_tokens
        },
{
}

/// The inputs and the arguments of a run are read in their places.
pub proof fn law_run_is_read<T>(
    context: &TorchContext<T>,
    index: i64,
    n: i64,
    default: i64,
    text: &str,
    r: VmResult<Value>,
)
    requires
        0 <= index <= usize::MAX,
    ensures
        call_ensures(runtime_input::<T>, (context, index), r) && index < context@.inputs.len()
            ==> r is Ok && r->Ok_0@ == ValueView::Int(context@.inputs[index as int]),
        call_ensures(runtime_arg::<T>, (context, index), r) && index < context@.args.len()
            ==> r is Ok && r->Ok_0@ == ValueView::String(context@.args[index as int]),
        call_ensures(runtime_arg_or::<T>, (context, index, text), r) ==> r is Ok && r->Ok_0@
            == ValueView::String(
            if index < context@.args.len() {
                context@.args[index as int]
            } else {
                text@
            },
        ),
        call_ensures(runtime_arg_int::<T>, (context, index), r) && index < context@.args.len()
            && context@.args[index as int] == text::decimal(n as int) ==> r is Ok && r->Ok_0@
            == ValueView::Int(n),
        call_ensures(runtime_arg_int_or::<T>, (context, index, default), r) && index
            >= context@.args.len() ==> r is Ok && r->Ok_0@ == ValueView::Int(default),
{
    number::law_decimal_reads_back(n as int);
}

/// Compacting keeps the tensors that are in use, with what they hold.
pub proof fn law_compacted<T>(
    context: &mut TorchContext<T>,
    first: i64,
    second: i64,
    r: VmResult<Value>,
    handle: i64,
)
    requires
        call_ensures(runtime_compact2::<T>, (context, first, second), r),
        old(context)@.tensors.contains_key(handle),
        r is Ok,
        handle == first || handle == second || old(context)@.inputs.contains(handle)
            || old(context)@.output == Some(handle),
    ensures
        final(context)@.tensors.contains_key(handle),
        final(context)@.tensors[handle] == old(context)@.tensors[handle],
{
    runtime::law_compacting_keeps_what_is_in_use(old(context)@, first, second, handle);
}

/// There is a box for each outermost outer border of those that are handed in and no other, in
/// their order, and it is the least one around the points of that border.
pub proof fn law_boxes_of_borders(
    contours: &Vec<Contour>,
    left: u32,
    top: u32,
    width: u32,
    height: u32,
    r: Vec<[u32; 4]>,
)
    requires
        call_ensures(boxes_from_contours, (contours, left, top, width, height), r),
        left < width,
        top < height,
        lama::are_inside(images::contour_views(contours@), width - left, height - top),
    ensures
        ({
            let outermost = images::contour_views(contours@).filter(
                |c: ContourView| c.0 && c.1 is None,
            );
            &&& r@.len() == outermost.len()
            &&& forall|i: int|
                0 <= i < r@.len() ==> lama::is_around(
                    (
                        #[trigger] r@[i][0] as int,
                        r@[i][1] as int,
                        r@[i][2] as int,
                        r@[i][3] as int,
                    ),
                    outermost[i].2,
                    left as int,
                    top as int,
                )
        }),
{
    let models = images::contour_views(contours@);
    lama::law_a_box_for_each_region(
        models,
        left as int,
        top as int,
        width as int,
        height as int,
        models.len(),
    );
    assert(models.take(models.len() as int) =~= models);
    let boxes = lama::boxes_of(
        models,
        left as int,
        top as int,
        width as int,
        height as int,
        models.len(),
    );
    assert(lama::all_edges(r@) == boxes);
    assert forall|i: int| 0 <= i < r@.len() implies lama::is_around(
        (#[trigger] r@[i][0] as int, r@[i][1] as int, r@[i][2] as int, r@[i][3] as int),
        models.filter(|c: ContourView| c.0 && c.1 is None)[i].2,
        left as int,
        top as int,
    ) by {
        assert(lama::all_edges(r@)[i] == boxes[i]);
    }
}

/// Every masked pixel that a found border goes around lies in one of the boxes of its mask.
pub proof fn law_masked_pixels_are_boxed(
    mask: &GrayImage,
    r: Vec<[u32; 4]>,
    b: (int, int, int, int),
    x: int,
    y: int,
)
    requires
        call_ensures(boxes_from_mask, (mask,), r),
        0 <= x < mask.width,
        0 <= y < mask.height,
        mask.data@[y * mask.width + x] > 127,
        lama::is_bounds(*mask, b),
        lama::are_inside(lama::found_borders(*mask, b), b.2 - b.0, b.3 - b.1),
        exists|i: int|
            0 <= i < lama::found_borders(*mask, b).len() && lama::goes_around(
                #[trigger] lama::found_borders(*mask, b)[i],
                x - b.0 + 1,
                y - b.1 + 1,
            ),
    ensures
        r@.len() == lama::found_borders(*mask, b).filter(
            |c: ContourView| c.0 && c.1 is None,
        ).len(),
        exists|i: int|
            0 <= i < r@.len() && (#[trigger] r@[i])[0] <= x < r@[i][2] && r@[i][1] <= y < r@[i][3],
{
    lama::law_masked_pixels_are_worked_on(*mask, b, x, y);
    let boxes = lama::mask_boxes(*mask);
    let i = choose|i: int|
        0 <= i < boxes.len() && lama::pixel_in_box(#[trigger] boxes[i], x, y) && lama::pixel_in_box(
            lama::mask_crops(*mask)[i],
            x,
            y,
        ) && lama::is_box_in(mask.width as int, mask.height as int, lama::mask_crops(*mask)[i]);
    assert(lama::all_edges(r@)[i] == boxes[i]);
    assert(r@[i][0] == boxes[i].0);
}

/// In a large image that was inpainted, a masked pixel that a found border goes around comes from
/// what the graph gave for a part of the image and its mask in a box that holds the pixel.
pub proof fn law_masked_pixels_are_inpainted<
    G,
    F: Fn(&G, Device, &str, &RgbImage, &GrayImage) -> Result<RgbImage, String>,
>(
    script: &LamaRustScript<G>,
    weights_path: &str,
    image: RgbImage,
    mask: &GrayImage,
    forward: F,
    r: Result<RgbImage, String>,
    b: (int, int, int, int),
    x: int,
    y: int,
    c: int,
)
    requires
        call_ensures(
            LamaRustScript::<G>::inference::<F>,
            (script, weights_path, image, mask, forward),
            r,
        ),
        r is Ok,
        image.wf(),
        image.width == mask.width,
        image.height == mask.height,
        image.width > 800 || image.height > 800,
        0 <= x < mask.width,
        0 <= y < mask.height,
        0 <= c < 3,
        mask.data@[y * mask.width + x] > 127,
        lama::is_bounds(*mask, b),
        lama::are_inside(lama::found_borders(*mask, b), b.2 - b.0, b.3 - b.1),
        exists|i: int|
            0 <= i < lama::found_borders(*mask, b).len() && lama::goes_around(
                #[trigger] lama::found_borders(*mask, b)[i],
                x - b.0 + 1,
                y - b.1 + 1,
            ),
        forall|i: int|
            0 <= i < lama::mask_crops(*mask).len() ==> lama::is_box_in(
                mask.width as int,
                mask.height as int,
                #[trigger] lama::mask_crops(*mask)[i],
            ),
    ensures
        r->Ok_0.width == image.width,
        r->Ok_0.height == image.height,
        exists|part: RgbImage, lit: GrayImage, out: RgbImage, e: (int, int, int, int)|
            {
                &&& #[trigger] lama::are_parts(part, lit, image, *mask, e)
                &&& #[trigger] call_ensures(
                    forward,
                    (&script.graph, script.device, weights_path, &part, &lit),
                    Ok::<RgbImage, String>(out),
                )
                &&& e.0 <= x < e.2 && e.1 <= y < e.3
                &&& r->Ok_0.data@[y * (image.width * 3) + x * 3 + c] == out.data@[(y - e.1) * ((e.2
                    - e.0) * 3) + (x - e.0) * 3 + c]
            },
{
    let crops = lama::mask_crops(*mask);
    lama::law_masked_pixels_are_worked_on(*mask, b, x, y);
    let boxes = lama::mask_boxes(*mask);
    let j = choose|j: int|
        0 <= j < boxes.len() && lama::pixel_in_box(#[trigger] boxes[j], x, y) && lama::pixel_in_box(
            crops[j],
            x,
            y,
        ) && lama::is_box_in(mask.width as int, mask.height as int, crops[j]);
    let parts = choose|parts: Seq<RgbImage>|
        {
            &&& parts.len() == crops.len()
            &&& r->Ok_0.width == image.width
            &&& r->Ok_0.height == image.height
            &&& r->Ok_0.data@ == #[trigger] lama::paste_all(
                image.data@,
                image.width as int,
                crops,
                parts,
                crops.len(),
            )
            &&& lama::all_worked(*script, weights_path, forward, image, *mask, crops, parts)
        };
    let i = lemma_last_crop(crops, x, y, j, crops.len() as int);
    lama::law_inpainted_pixels(
        *script,
        weights_path,
        forward,
        image,
        *mask,
        crops,
        parts,
        i,
        x,
        y,
        c,
    );
    let (part, lit) = choose|part: RgbImage, lit: GrayImage|
        {
            &&& lama::are_parts(part, lit, image, *mask, crops[i])
            &&& #[trigger] call_ensures(
                forward,
                (&script.graph, script.device, weights_path, &part, &lit),
                Ok::<RgbImage, String>(parts[i]),
            )
        };
    assert(lama::are_parts(part, lit, image, *mask, crops[i]));
}

proof fn lemma_last_crop(
    crops: Seq<(int, int, int, int)>,
    x: int,
    y: int,
    j: int,
    n: int,
) -> (i: int)
    requires
        0 <= j < n <= crops.len(),
        lama::pixel_in_box(crops[j], x, y),
    ensures
        0 <= i < n,
        lama::pixel_in_box(crops[i], x, y),
        forall|k: int| i < k < n ==> !lama::pixel_in_box(#[trigger] crops[k], x, y),
    decreases n,
{
    if lama::pixel_in_box(crops[n - 1], x, y) {
        n - 1
    } else {
        lemma_last_crop(crops, x, y, j, n - 1)
    }
}

/// An image and a mask are worked on where their sizes are the same and not zero, and the part of
/// either in a box has its pixels.
pub proof fn law_parts_are_cut(
    image: &RgbImage,
    mask: &GrayImage,
    b: [u32; 4],
    checked: Result<(), String>,
    part: RgbImage,
    lit: GrayImage,
    x: int,
    y: int,
    c: int,
)
    requires
        call_ensures(check_sizes, (image, mask), checked),
        call_ensures(crop_image, (image, b), part),
        call_ensures(crop_mask, (mask, b), lit),
        b[0] <= x < b[2] <= image.width,
        b[1] <= y < b[3] <= image.height,
        image.width == mask.width,
        image.height == mask.height,
        0 <= c < 3,
    ensures
        checked is Ok,
        part.data@[(y - b[1]) * (part.width * 3) + (x - b[0]) * 3 + c] == image.data@[y
            * (image.width * 3) + x * 3 + c],
        lit.data@[(y - b[1]) * lit.width + (x - b[0])] == mask.data@[y * mask.width + x],
{
    lama::law_parts_hold_their_pixels(part, lit, *image, *mask, lama::edges(b), x, y, c);
}

/// The crop of a box lies in the image and holds the box, with 128 pixels around it where the image
/// has them.
pub proof fn law_crop_of_box(width: u32, height: u32, b: [u32; 4], r: [u32; 4])
    requires
        call_ensures(crop_box, (width, height, b), r),
        b[0] < b[2] <= width,
        b[1] < b[3] <= height,
    ensures
        r[0] <= b[0] && b[2] <= r[2] <= width,
        r[1] <= b[1] && b[3] <= r[3] <= height,
        b[0] >= 128 && b[2] + 128 <= width ==> r[0] == b[0] - 128 && b[2] + 127 <= r[2] <= b[2]
            + 128,
        b[1] >= 128 && b[3] + 128 <= height ==> r[1] == b[1] - 128 && b[3] + 127 <= r[3] <= b[3]
            + 128,
{
    lama::law_crop_holds_box(width as int, height as int, lama::edges(b));
    lama::law_crop_margin(width as int, b[0] as int, b[2] as int);
    lama::law_crop_margin(height as int, b[1] as int, b[3] as int);
}

/// A report on labels is asked for as a script gives it, each argument as what it was given for.
pub proof fn law_labels_are_asked_for<T>(
    context: &TorchContext<T>,
    args: &[Value],
    r: VmResult<LabelRequest>,
)
    requires
        context@.wf(),
        call_ensures(label_request::<T>, (context, args), r),
        r is Ok,
    ensures
        args@.len() >= 4,
        args@[0] is String && args@[0]->String_0@ == r->Ok_0.text@,
        args@[1] == Value::Int(r->Ok_0.labels),
        args@[2] is String && args@[2]->String_0@ == r->Ok_0.names@,
        args@[3] == Value::Bool(r->Ok_0.special),
{
    labels::law_label_request(context@, args@);
}

/// The report on a text whose tokens have no labels says so.
pub proof fn law_no_labels_are_reported(
    s: &str,
    encoded: Encoded,
    numbers: &Vec<i64>,
    names: &str,
    r: VmResult<Value>,
)
    requires
        call_ensures(format_labels, (s, Ok::<Encoded, String>(encoded), numbers, names), r),
        forall|i: int| 0 <= i < numbers@.len() ==> #[trigger] numbers@[i] == 0,
    ensures
        r is Ok && r->Ok_0@ == ValueView::String("O\n"@),
{
    let n = labels::labelled(encoded.offsets@, numbers@);
    lemma_no_spans(encoded.offsets@, numbers@, labels::label_names(names@), n);
    labels::law_report_lines(s@, Seq::empty(), (Seq::empty(), 0usize, 0usize));
}

proof fn lemma_no_spans(
    offsets: Seq<(usize, usize)>,
    numbers: Seq<i64>,
    names: Seq<Seq<char>>,
    n: nat,
)
    requires
        n <= numbers.len(),
        forall|i: int| 0 <= i < numbers.len() ==> #[trigger] numbers[i] == 0,
    ensures
        labels::spans_of(offsets, numbers, names, n) == Ok::<
            Seq<labels::SpanView>,
            crate::value::ErrorView,
        >(Seq::empty()),
    decreases n,
{
    if n > 0 {
        lemma_no_spans(offsets, numbers, names, (n - 1) as nat);
        assert(numbers[n - 1] == 0);
    }
}

/// Tokens become one row with each of them in its place, filled up where that is asked for.
pub proof fn law_rows_of_tokens(
    encoded: Encoded,
    len: usize,
    pad: i64,
    r: VmResult<IntTensor>,
    s: VmResult<(IntTensor, IntTensor)>,
)
    requires
        encoded.ids@.len() <= i64::MAX,
        len <= i64::MAX,
        call_ensures(token_row, (Ok::<Encoded, String>(encoded),), r),
        call_ensures(token_row_padded, (Ok::<Encoded, String>(encoded), len, pad), s),
    ensures
        r is Ok && r->Ok_0.values@.len() == encoded.ids@.len(),
        forall|i: int|
            0 <= i < encoded.ids@.len() ==> r->Ok_0.values@[i] == #[trigger] encoded.ids@[i],
        s is Ok && s->Ok_0.0.values@.len() == len && s->Ok_0.1.values@.len() == len,
        forall|i: int|
            0 <= i < len ==> (#[trigger] s->Ok_0.0.values@[i]) == (if i < encoded.ids@.len() {
                encoded.ids@[i] as i64
            } else {
                pad
            }),
        forall|i: int|
            0 <= i < len ==> (#[trigger] s->Ok_0.1.values@[i]) == (if i < encoded.ids@.len() {
                1i64
            } else {
                0i64
            }),
{
    tokenizer::law_padded_row(encoded.ids@, encoded.offsets@, len as nat, pad, Seq::empty());
    tokenizer::law_row_of_tokens(encoded.ids@, encoded.offsets@, Seq::empty());
}

} // verus!
