//! Text to tokens and back: prompts, padding, labels and decoding.
use vstd::prelude::*;
use vstd::string::*;

use crate::args;
use crate::context;
use crate::context::{ContextView, HostTensor, TorchContext};
use crate::runtime;
use crate::support;
use crate::support::{can_decode, can_encode, can_read};
use crate::text;
use crate::value::{host_error, ErrorView, Value, ValueView, VmError, VmResult};
use crate::weights;

verus! {

/// The tokens of a text, and where in the bytes of the text each begins and ends.
#[derive(Debug)]
pub struct Encoded {
    pub ids: Vec<u32>,
    pub offsets: Vec<(usize, usize)>,
}

/// The model of an encoding, or of the message on a text that cannot be encoded.
pub type EncodedView = Result<(Seq<u32>, Seq<(usize, usize)>), Seq<char>>;

/// The result of encoding, as a model.
pub open spec fn encoded_view(r: Result<Encoded, String>) -> EncodedView {
    match r {
        Ok(e) => Ok((e.ids@, e.offsets@)),
        Err(m) => Err(m@),
    }
}

/// The result of decoding, as a model.
pub open spec fn decoded_view(r: Result<String, String>) -> Result<Seq<char>, Seq<char>> {
    match r {
        Ok(s) => Ok(s@),
        Err(m) => Err(m@),
    }
}

/// Whether the tokenizer with this description can encode a text like this. A tokenizer that
/// drops merges at random has more than one way.
pub uninterp spec fn may_encode(
    tokenizer: Seq<char>,
    text: Seq<char>,
    special: bool,
    r: Result<(Seq<u32>, Seq<(usize, usize)>), Seq<char>>,
) -> bool;

/// Whether the tokenizer with this description can decode tokens like this.
pub uninterp spec fn may_decode(
    tokenizer: Seq<char>,
    ids: Seq<u32>,
    skip_special: bool,
    r: Result<Seq<char>, Seq<char>>,
) -> bool;

/// Whether reading this description of a tokenizer can end like this.
pub uninterp spec fn may_load(tokenizer: Seq<char>, r: Result<(), Seq<char>>) -> bool;

/// `tokenizers::Tokenizer::from_str`: reads the description of a tokenizer.
///
/// Claimed, of a description that names nothing twice and whose normalizer and model are plain: no
/// more than that the outcome is one that the description allows.
#[verifier::external_body]
pub(crate) fn check_tokenizer(tokenizer: &str) -> (r: Result<(), String>)
    requires
        support::is_readable(tokenizer@),
    ensures
        may_load(
            tokenizer@,
            match r {
                Ok(()) => Ok(()),
                Err(m) => Err(m@),
            },
        ),
{
    tokenizer.parse::<tokenizers::Tokenizer>().map(|_| ()).map_err(|e| e.to_string())
}

/// `tokenizers::Tokenizer::encode`: the tokens of a text, with the tokenizer of this description.
///
/// Claimed, of a description in which all that encodes is plain: no more than that the outcome is
/// one that the description, the text and the flag allow; a description that cannot be read is an
/// outcome too. Which of them comes is left unsaid, for a tokenizer can drop merges at random.
#[verifier::external_body]
pub(crate) fn encode(tokenizer: &str, text: &str, special: bool) -> (r: Result<Encoded, String>)
    requires
        support::is_encodable(tokenizer@),
    ensures
        may_encode(tokenizer@, text@, special, encoded_view(r)),
{
    let loaded = tokenizer.parse::<tokenizers::Tokenizer>().map_err(|e| e.to_string())?;
    let encoding = loaded.encode(text, special).map_err(|e| e.to_string())?;
    Ok(Encoded { ids: encoding.get_ids().to_vec(), offsets: encoding.get_offsets().to_vec() })
}

/// `tokenizers::Tokenizer::decode`: the text of tokens, with the tokenizer of this description.
///
/// Claimed, of a description in which all that decodes is plain: no more than that the outcome is
/// one that the description, the tokens and the flag allow; a description that cannot be read is an
/// outcome too. Which of them comes is left unsaid, for a description can give one number to two
/// tokens.
#[verifier::external_body]
pub(crate) fn decode(tokenizer: &str, ids: &Vec<u32>, skip_special: bool) -> (r: Result<
    String,
    String,
>)
    requires
        support::is_decodable(tokenizer@),
    ensures
        may_decode(tokenizer@, ids@, skip_special, decoded_view(r)),
{
    let loaded = tokenizer.parse::<tokenizers::Tokenizer>().map_err(|e| e.to_string())?;
    loaded.decode(ids, skip_special).map_err(|e| e.to_string())
}

/// The result of reading a description, as a model.
pub open spec fn loaded_view(r: Result<(), String>) -> Result<(), Seq<char>> {
    match r {
        Ok(()) => Ok(()),
        Err(m) => Err(m@),
    }
}

/// Whether reading a description can end like this, where `beyond` reads those that are not plain.
pub open spec fn loads<B: FnOnce(&str) -> Result<(), String>>(
    tokenizer: Seq<char>,
    beyond: B,
    e: Result<(), Seq<char>>,
) -> bool {
    if support::is_readable(tokenizer) {
        may_load(tokenizer, e)
    } else {
        exists|t: &str, r: Result<(), String>|
            t@ == tokenizer && loaded_view(r) == e && #[trigger] call_ensures(beyond, (t,), r)
    }
}

/// Reads the description of a tokenizer; `beyond` reads those that are not plain.
pub fn load_with<B: FnOnce(&str) -> Result<(), String>>(tokenizer: &str, beyond: B) -> (r: Result<
    (),
    String,
>)
    requires
        forall|t: &str| #[trigger] call_requires(beyond, (t,)),
    ensures
        loads(tokenizer@, beyond, loaded_view(r)),
{
    if can_read(tokenizer) {
        check_tokenizer(tokenizer)
    } else {
        beyond(tokenizer)
    }
}

/// Whether encoding a text can end like this, where `beyond` encodes with the tokenizers that are
/// not plain.
pub open spec fn encodes<B: FnOnce(&str, &str, bool) -> Result<Encoded, String>>(
    tokenizer: Seq<char>,
    text: Seq<char>,
    special: bool,
    beyond: B,
    e: EncodedView,
) -> bool {
    if support::is_encodable(tokenizer) {
        may_encode(tokenizer, text, special, e)
    } else {
        exists|t: &str, x: &str, r: Result<Encoded, String>|
            t@ == tokenizer && x@ == text && encoded_view(r) == e && #[trigger] call_ensures(
                beyond,
                (t, x, special),
                r,
            )
    }
}

/// The tokens of a text; `beyond` encodes with the tokenizers that are not plain.
pub fn encode_with<B: FnOnce(&str, &str, bool) -> Result<Encoded, String>>(
    tokenizer: &str,
    text: &str,
    special: bool,
    beyond: B,
) -> (r: Result<Encoded, String>)
    requires
        forall|t: &str, x: &str, b: bool| #[trigger] call_requires(beyond, (t, x, b)),
    ensures
        encodes(tokenizer@, text@, special, beyond, encoded_view(r)),
{
    if can_encode(tokenizer) {
        encode(tokenizer, text, special)
    } else {
        beyond(tokenizer, text, special)
    }
}

/// Whether decoding tokens can end like this, where `beyond` decodes with the tokenizers that are
/// not plain.
pub open spec fn decodes<B: FnOnce(&str, &Vec<u32>, bool) -> Result<String, String>>(
    tokenizer: Seq<char>,
    ids: Seq<u32>,
    skip_special: bool,
    beyond: B,
    d: Result<Seq<char>, Seq<char>>,
) -> bool {
    if support::is_decodable(tokenizer) {
        may_decode(tokenizer, ids, skip_special, d)
    } else {
        exists|t: &str, v: &Vec<u32>, r: Result<String, String>|
            t@ == tokenizer && v@ == ids && decoded_view(r) == d && #[trigger] call_ensures(
                beyond,
                (t, v, skip_special),
                r,
            )
    }
}

/// The text of tokens; `beyond` decodes with the tokenizers that are not plain.
pub fn decode_with<B: FnOnce(&str, &Vec<u32>, bool) -> Result<String, String>>(
    tokenizer: &str,
    ids: &Vec<u32>,
    skip_special: bool,
    beyond: B,
) -> (r: Result<String, String>)
    requires
        forall|t: &str, v: &Vec<u32>, b: bool| #[trigger] call_requires(beyond, (t, v, b)),
    ensures
        decodes(tokenizer@, ids@, skip_special, beyond, decoded_view(r)),
{
    if can_decode(tokenizer) {
        decode(tokenizer, ids, skip_special)
    } else {
        beyond(tokenizer, ids, skip_special)
    }
}

/// Whole numbers in the shape of a tensor.
#[derive(Debug)]
pub struct IntTensor {
    pub values: Vec<i64>,
    pub size: Vec<i64>,
}

/// The model of an [`IntTensor`].
pub type IntTensorView = (Seq<i64>, Seq<i64>);

impl View for IntTensor {
    type V = IntTensorView;

    open spec fn view(&self) -> IntTensorView {
        (self.values@, self.size@)
    }
}

/// How a tokenizer gets there.
pub enum TokenizerPlan {
    /// It is there; holds what the script gets.
    Loaded(Value),
    /// It has to be read from this path.
    Read(String),
}

/// What asking for the tokenizer of a path comes to, where `same` says whether the tokenizer that
/// is there came from it.
pub open spec fn tokenizer_step(path: Seq<char>, same: bool, r: VmResult<TokenizerPlan>) -> bool {
    if same {
        r matches Ok(TokenizerPlan::Loaded(v)) && v == Value::Bool(true)
    } else {
        r matches Ok(TokenizerPlan::Read(p)) && p@ == path
    }
}

/// Asks for the tokenizer of the path that the script gives.
///
/// A tokenizer that came from the same path is not read again.
pub fn tokenizer_load<T>(context: &TorchContext<T>, args: &[Value]) -> (r: VmResult<TokenizerPlan>)
    ensures
        ({
            let c = context@;
            match args::string_at(c.active_host_op, args@, 0, "path"@) {
                Err(e) => r is Err && r->Err_0@ == e,
                Ok(path) => {
                    ||| weights::known_path(c.tokenizer_path, path, true) && tokenizer_step(
                        path,
                        true,
                        r,
                    )
                    ||| weights::known_path(c.tokenizer_path, path, false) && tokenizer_step(
                        path,
                        false,
                        r,
                    )
                },
            }
        }),
{
    let path: &str = match args::string_arg(&context.active_host_op, args, 0, "path") {
        Ok(path) => path,
        Err(e) => {
            return Err(e);
        },
    };
    let same: bool = match &context.tokenizer_path {
        Some(known) => weights::same_path(known.as_str(), path),
        None => false,
    };
    if same {
        Ok(TokenizerPlan::Loaded(Value::Bool(true)))
    } else {
        Ok(TokenizerPlan::Read(path.to_owned()))
    }
}

/// Keeps the tokenizer that was read from a path, where `checked` says whether its description
/// is valid.
pub fn tokenizer_store_with<T>(
    context: &mut TorchContext<T>,
    path: &str,
    tokenizer: &str,
    checked: Result<(), String>,
) -> (r: VmResult<Value>)
    requires
        old(context).wf(),
    ensures
        final(context).wf(),
        match checked {
            Err(m) => {
                &&& runtime::outcome(r) == Err::<ValueView, ErrorView>(
                    weights::unreadable_file(path@, m@),
                )
                &&& final(context)@ == old(context)@
            },
            Ok(()) => {
                &&& runtime::outcome(r) == Ok::<ValueView, ErrorView>(ValueView::Bool(true))
                &&& final(context)@ == (ContextView {
                    tokenizer: Some(tokenizer@),
                    tokenizer_path: Some(path@),
                    ..old(context)@
                })
            },
        },
{
    match checked {
        Err(m) => Err(weights::read_error(path, m.as_str())),
        Ok(()) => {
            context.tokenizer = Some(tokenizer.to_owned());
            context.tokenizer_path = Some(path.to_owned());
            Ok(Value::Bool(true))
        },
    }
}

/// Keeps the tokenizer that was read from a path, where its description is valid; `beyond` reads
/// the descriptions that are not plain.
pub fn tokenizer_store<T, B: FnOnce(&str) -> Result<(), String>>(
    context: &mut TorchContext<T>,
    path: &str,
    tokenizer: &str,
    beyond: B,
) -> (r: VmResult<Value>)
    requires
        old(context).wf(),
        forall|t: &str| #[trigger] call_requires(beyond, (t,)),
    ensures
        final(context).wf(),
        match runtime::outcome(r) {
            Ok(v) => {
                &&& v == ValueView::Bool(true)
                &&& loads(tokenizer@, beyond, Ok(()))
                &&& final(context)@ == (ContextView {
                    tokenizer: Some(tokenizer@),
                    tokenizer_path: Some(path@),
                    ..old(context)@
                })
            },
            Err(e) => {
                &&& exists|m: Seq<char>| #[trigger]
                    loads(tokenizer@, beyond, Err(m)) && e == weights::unreadable_file(path@, m)
                &&& final(context)@ == old(context)@
            },
        },
{
    let checked: Result<(), String> = load_with(tokenizer, beyond);
    assert(loads(tokenizer@, beyond, loaded_view(checked)));
    tokenizer_store_with(context, path, tokenizer, checked)
}

/// The prompt of a chat with a system message and a user message.
pub open spec fn chat_prompt(system: Seq<char>, user: Seq<char>) -> Seq<char> {
    "<|startoftext|><|im_start|>system\n"@ + system + "<|im_end|>\n<|im_start|>user\n"@ + user
        + "<|im_end|>\n<|im_start|>assistant\n"@
}

/// The prompt of a chat with a system message and a user message.
pub fn chat_prompt_text(system: &str, user: &str) -> (r: String)
    ensures
        r@ == chat_prompt(system@, user@),
{
    let mut prompt: String = text::join3(
        "<|startoftext|><|im_start|>system\n",
        system,
        "<|im_end|>\n<|im_start|>user\n",
    );
    prompt.append(user);
    prompt.append("<|im_end|>\n<|im_start|>assistant\n");
    prompt
}

/// A text, `n` times.
pub open spec fn repeated(s: Seq<char>, n: nat) -> Seq<char>
    decreases n,
{
    if n == 0 {
        Seq::empty()
    } else {
        repeated(s, (n - 1) as nat) + s
    }
}

/// The prompt of a chat with an image of `image_tokens` tokens before the user message.
pub open spec fn vl_prompt(system: Seq<char>, user: Seq<char>, image_tokens: nat) -> Seq<char> {
    "<|startoftext|><|im_start|>system\n"@ + system
        + "<|im_end|>\n<|im_start|>user\n<|image_start|>"@ + repeated("<image>"@, image_tokens)
        + "<|image_end|>"@ + user + "<|im_end|>\n<|im_start|>assistant\n"@
}

/// The prompt of a chat with an image of `image_tokens` tokens before the user message.
pub fn vl_prompt_text(system: &str, user: &str, image_tokens: usize) -> (r: String)
    ensures
        r@ == vl_prompt(system@, user@, image_tokens as nat),
{
    let mut prompt: String = text::join3(
        "<|startoftext|><|im_start|>system\n",
        system,
        "<|im_end|>\n<|im_start|>user\n<|image_start|>",
    );
    let ghost head = prompt@;
    let mut i: usize = 0;
    assert(prompt@ =~= head + repeated("<image>"@, 0));
    while i < image_tokens
        invariant
            i <= image_tokens,
            prompt@ == head + repeated("<image>"@, i as nat),
        decreases image_tokens - i,
    {
        prompt.append("<image>");
        assert(prompt@ =~= head + repeated("<image>"@, (i + 1) as nat));
        i = i + 1;
    }
    prompt.append("<|image_end|>");
    prompt.append(user);
    prompt.append("<|im_end|>\n<|im_start|>assistant\n");
    prompt
}

/// The message on a tokenizer that was not loaded.
pub open spec fn no_tokenizer() -> ErrorView {
    ErrorView::Host("tokenizer has not been loaded"@)
}

/// The message on a text that cannot be encoded.
pub open spec fn encode_failure(reason: Seq<char>) -> ErrorView {
    ErrorView::Host("tokenizer encode failed: "@ + reason)
}

/// Token numbers as integers.
pub open spec fn widened(ids: Seq<u32>) -> Seq<i64> {
    Seq::new(ids.len(), |i: int| ids[i] as i64)
}

/// The tokens of one text as a tensor with one row.
pub open spec fn row_outcome(encoded: EncodedView) -> Result<IntTensorView, ErrorView> {
    match encoded {
        Err(m) => Err(encode_failure(m)),
        Ok((ids, _)) => if ids.len() <= i64::MAX {
            Ok((widened(ids), seq![1i64, ids.len() as i64]))
        } else {
            Err(ErrorView::Host("token count out of range"@))
        },
    }
}

/// The result of making a tensor of whole numbers, as a model.
pub open spec fn tensor_result(r: VmResult<IntTensor>) -> Result<IntTensorView, ErrorView> {
    match r {
        Ok(t) => Ok(t@),
        Err(e) => Err(e@),
    }
}

fn widen(ids: &Vec<u32>) -> (r: Vec<i64>)
    ensures
        r@ == widened(ids@),
{
    let mut out: Vec<i64> = Vec::new();
    let mut i: usize = 0;
    while i < ids.len()
        invariant
            i <= ids@.len(),
            out@ == widened(ids@).take(i as int),
        decreases ids@.len() - i,
    {
        out.push(ids[i] as i64);
        assert(out@ =~= widened(ids@).take(i as int + 1));
        i = i + 1;
    }
    assert(widened(ids@).take(ids@.len() as int) =~= widened(ids@));
    out
}

fn encode_error(reason: &str) -> (r: VmError)
    ensures
        r@ == encode_failure(reason@),
{
    host_error(text::join2("tokenizer encode failed: ", reason).as_str())
}

/// The tokens of one text as a tensor with one row.
pub fn token_row(encoded: Result<Encoded, String>) -> (r: VmResult<IntTensor>)
    ensures
        tensor_result(r) == row_outcome(encoded_view(encoded)),
{
    match encoded {
        Err(m) => Err(encode_error(m.as_str())),
        Ok(e) => {
            let count: usize = e.ids.len();
            if count as u64 > i64::MAX as u64 {
                return Err(host_error("token count out of range"));
            }
            let values: Vec<i64> = widen(&e.ids);
            let mut size: Vec<i64> = Vec::new();
            size.push(1);
            size.push(count as i64);
            assert(size@ =~= seq![1i64, count as i64]);
            Ok(IntTensor { values, size })
        },
    }
}

/// Whether `r` is what a prompt comes to: the loaded tokenizer encodes it without the tokens it
/// adds by itself, and the tokens are one row.
pub open spec fn prompt_result<T, B: FnOnce(&str, &str, bool) -> Result<Encoded, String>>(
    c: ContextView<T>,
    prompt: Seq<char>,
    beyond: B,
    r: Result<IntTensorView, ErrorView>,
) -> bool {
    match c.tokenizer {
        None => r == Err::<IntTensorView, ErrorView>(no_tokenizer()),
        Some(tokenizer) => encodes_to_row(tokenizer, prompt, beyond, r),
    }
}

/// Whether `r` is the row of an encoding that the tokenizer can give.
pub open spec fn encodes_to_row<B: FnOnce(&str, &str, bool) -> Result<Encoded, String>>(
    tokenizer: Seq<char>,
    prompt: Seq<char>,
    beyond: B,
    r: Result<IntTensorView, ErrorView>,
) -> bool {
    exists|e: EncodedView| #[trigger]
        encodes(tokenizer, prompt, false, beyond, e) && r == row_outcome(e)
}

fn encode_prompt<T, B: FnOnce(&str, &str, bool) -> Result<Encoded, String>>(
    context: &TorchContext<T>,
    prompt: &str,
    beyond: B,
) -> (r: VmResult<IntTensor>)
    requires
        forall|t: &str, x: &str, b: bool| #[trigger] call_requires(beyond, (t, x, b)),
    ensures
        prompt_result(context@, prompt@, beyond, tensor_result(r)),
{
    match &context.tokenizer {
        None => Err(host_error("tokenizer has not been loaded")),
        Some(tokenizer) => {
            let encoded: Result<Encoded, String> = encode_with(
                tokenizer.as_str(),
                prompt,
                false,
                beyond,
            );
            let ghost e = encoded_view(encoded);
            let r: VmResult<IntTensor> = token_row(encoded);
            assert(encodes(tokenizer@, prompt@, false, beyond, e));
            assert(encodes_to_row(tokenizer@, prompt@, beyond, tensor_result(r)));
            r
        },
    }
}

/// The tokens of a chat with a system message and a user message; `beyond` encodes with the
/// tokenizers that are not plain.
pub fn tokenizer_encode_chat<T, B: FnOnce(&str, &str, bool) -> Result<Encoded, String>>(
    context: &TorchContext<T>,
    args: &[Value],
    beyond: B,
) -> (r: VmResult<IntTensor>)
    requires
        forall|t: &str, x: &str, b: bool| #[trigger] call_requires(beyond, (t, x, b)),
    ensures
        ({
            let c = context@;
            let op = c.active_host_op;
            match args::string_at(op, args@, 0, "system"@) {
                Err(e) => tensor_result(r) == Err::<IntTensorView, ErrorView>(e),
                Ok(system) => match args::string_at(op, args@, 1, "user"@) {
                    Err(e) => tensor_result(r) == Err::<IntTensorView, ErrorView>(e),
                    Ok(user) => prompt_result(
                        c,
                        chat_prompt(system, user),
                        beyond,
                        tensor_result(r),
                    ),
                },
            }
        }),
{
    let op: &Option<String> = &context.active_host_op;
    match args::string_arg(op, args, 0, "system") {
        Err(e) => Err(e),
        Ok(system) => match args::string_arg(op, args, 1, "user") {
            Err(e) => Err(e),
            Ok(user) => {
                let prompt: String = chat_prompt_text(system, user);
                encode_prompt(context, prompt.as_str(), beyond)
            },
        },
    }
}

/// The tokens of a chat with an image before the user message; `beyond` encodes with the tokenizers
/// that are not plain.
pub fn tokenizer_encode_vl_chat<T, B: FnOnce(&str, &str, bool) -> Result<Encoded, String>>(
    context: &TorchContext<T>,
    args: &[Value],
    beyond: B,
) -> (r: VmResult<IntTensor>)
    requires
        forall|t: &str, x: &str, b: bool| #[trigger] call_requires(beyond, (t, x, b)),
    ensures
        ({
            let c = context@;
            let op = c.active_host_op;
            match args::string_at(op, args@, 0, "system"@) {
                Err(e) => tensor_result(r) == Err::<IntTensorView, ErrorView>(e),
                Ok(system) => match args::string_at(op, args@, 1, "user"@) {
                    Err(e) => tensor_result(r) == Err::<IntTensorView, ErrorView>(e),
                    Ok(user) => match args::int_at(op, args@, 2, "image_tokens"@) {
                        Err(e) => tensor_result(r) == Err::<IntTensorView, ErrorView>(e),
                        Ok(n) => match runtime::index_outcome(n, "image_tokens"@) {
                            Err(e) => tensor_result(r) == Err::<IntTensorView, ErrorView>(e),
                            Ok(n) => prompt_result(
                                c,
                                vl_prompt(system, user, n as nat),
                                beyond,
                                tensor_result(r),
                            ),
                        },
                    },
                },
            }
        }),
{
    let op: &Option<String> = &context.active_host_op;
    match args::string_arg(op, args, 0, "system") {
        Err(e) => Err(e),
        Ok(system) => match args::string_arg(op, args, 1, "user") {
            Err(e) => Err(e),
            Ok(user) => match args::int_arg(op, args, 2, "image_tokens") {
                Err(e) => Err(e),
                Ok(n) => match runtime::non_negative_index(n, "image_tokens") {
                    Err(e) => Err(e),
                    Ok(n) => {
                        let prompt: String = vl_prompt_text(system, user, n);
                        encode_prompt(context, prompt.as_str(), beyond)
                    },
                },
            },
        },
    }
}

/// Numbers cut to `len`, or filled up to it with `pad`.
pub open spec fn padded(ids: Seq<i64>, len: nat, pad: i64) -> Seq<i64> {
    Seq::new(
        len,
        |i: int|
            if i < ids.len() {
                ids[i]
            } else {
                pad
            },
    )
}

/// One for each number that is kept, and zero for each that is filled in.
pub open spec fn padding_mask(count: nat, len: nat) -> Seq<i64> {
    Seq::new(
        len,
        |i: int|
            if i < count {
                1i64
            } else {
                0i64
            },
    )
}

/// The tokens of a text at a fixed length, and the mask of those that are its own.
pub open spec fn padded_outcome(encoded: EncodedView, len: nat, pad: i64) -> Result<
    (IntTensorView, IntTensorView),
    ErrorView,
> {
    match encoded {
        Err(m) => Err(encode_failure(m)),
        Ok((ids, _)) => if len <= i64::MAX {
            let size = seq![1i64, len as i64];
            Ok(((padded(widened(ids), len, pad), size), (padding_mask(ids.len(), len), size)))
        } else {
            Err(ErrorView::Host("max_len out of range"@))
        },
    }
}

/// The result of making two tensors of whole numbers, as a model.
pub open spec fn pair_result(r: VmResult<(IntTensor, IntTensor)>) -> Result<
    (IntTensorView, IntTensorView),
    ErrorView,
> {
    match r {
        Ok((a, b)) => Ok((a@, b@)),
        Err(e) => Err(e@),
    }
}

/// The tokens of a text at a fixed length, and the mask of those that are its own.
pub fn token_row_padded(encoded: Result<Encoded, String>, max_len: usize, pad_token: i64) -> (r:
    VmResult<(IntTensor, IntTensor)>)
    ensures
        pair_result(r) == padded_outcome(encoded_view(encoded), max_len as nat, pad_token),
{
    let encoded: Encoded = match encoded {
        Err(m) => {
            return Err(encode_error(m.as_str()));
        },
        Ok(e) => e,
    };
    if max_len as u64 > i64::MAX as u64 {
        return Err(host_error("max_len out of range"));
    }
    let ghost ids = encoded.ids@;
    let wide: Vec<i64> = widen(&encoded.ids);
    let mut values: Vec<i64> = Vec::new();
    let mut mask: Vec<i64> = Vec::new();
    let mut i: usize = 0;
    while i < max_len
        invariant
            i <= max_len,
            wide@ == widened(ids),
            values@ == padded(widened(ids), max_len as nat, pad_token).take(i as int),
            mask@ == padding_mask(ids.len(), max_len as nat).take(i as int),
        decreases max_len - i,
    {
        if i < wide.len() {
            values.push(wide[i]);
            mask.push(1);
        } else {
            values.push(pad_token);
            mask.push(0);
        }
        i = i + 1;
        assert(values@ =~= padded(widened(ids), max_len as nat, pad_token).take(i as int));
        assert(mask@ =~= padding_mask(ids.len(), max_len as nat).take(i as int));
    }
    assert(values@ =~= padded(widened(ids), max_len as nat, pad_token));
    assert(mask@ =~= padding_mask(ids.len(), max_len as nat));
    let mut size: Vec<i64> = Vec::new();
    size.push(1);
    size.push(max_len as i64);
    assert(size@ =~= seq![1i64, max_len as i64]);
    let mut mask_size: Vec<i64> = Vec::new();
    mask_size.push(1);
    mask_size.push(max_len as i64);
    assert(mask_size@ =~= seq![1i64, max_len as i64]);
    Ok((IntTensor { values, size }, IntTensor { values: mask, size: mask_size }))
}

/// Whether `r` is what encoding a text at a fixed length comes to.
pub open spec fn encode_padded_result<T, B: FnOnce(&str, &str, bool) -> Result<Encoded, String>>(
    c: ContextView<T>,
    text: Seq<char>,
    len: nat,
    pad: i64,
    special: bool,
    beyond: B,
    r: Result<(IntTensorView, IntTensorView), ErrorView>,
) -> bool {
    match c.tokenizer {
        None => r == Err::<(IntTensorView, IntTensorView), ErrorView>(no_tokenizer()),
        Some(tokenizer) => encodes_padded(tokenizer, text, len, pad, special, beyond, r),
    }
}

/// Whether `r` is an encoding that the tokenizer can give, at a fixed length.
pub open spec fn encodes_padded<B: FnOnce(&str, &str, bool) -> Result<Encoded, String>>(
    tokenizer: Seq<char>,
    text: Seq<char>,
    len: nat,
    pad: i64,
    special: bool,
    beyond: B,
    r: Result<(IntTensorView, IntTensorView), ErrorView>,
) -> bool {
    exists|e: EncodedView| #[trigger]
        encodes(tokenizer, text, special, beyond, e) && r == padded_outcome(e, len, pad)
}

/// Encodes a text at a fixed length: the tokens, cut or filled up, and the mask of its own;
/// `beyond` encodes with the tokenizers that are not plain.
pub fn tokenizer_encode_padded<T, B: FnOnce(&str, &str, bool) -> Result<Encoded, String>>(
    context: &TorchContext<T>,
    args: &[Value],
    beyond: B,
) -> (r: VmResult<(IntTensor, IntTensor)>)
    requires
        forall|t: &str, x: &str, b: bool| #[trigger] call_requires(beyond, (t, x, b)),
    ensures
        ({
            let c = context@;
            let op = c.active_host_op;
            match args::string_at(op, args@, 0, "text"@) {
                Err(e) => r is Err && r->Err_0@ == e,
                Ok(text) => match args::int_at(op, args@, 1, "max_len"@) {
                    Err(e) => r is Err && r->Err_0@ == e,
                    Ok(n) => match runtime::index_outcome(n, "max_len"@) {
                        Err(e) => r is Err && r->Err_0@ == e,
                        Ok(len) => match args::int_at(op, args@, 2, "pad_token"@) {
                            Err(e) => r is Err && r->Err_0@ == e,
                            Ok(pad) => match args::bool_at(op, args@, 3, "add_special_tokens"@) {
                                Err(e) => r is Err && r->Err_0@ == e,
                                Ok(special) => encode_padded_result(
                                    c,
                                    text,
                                    len as nat,
                                    pad,
                                    special,
                                    beyond,
                                    pair_result(r),
                                ),
                            },
                        },
                    },
                },
            }
        }),
{
    let op: &Option<String> = &context.active_host_op;
    let text: &str = match args::string_arg(op, args, 0, "text") {
        Err(e) => {
            return Err(e);
        },
        Ok(text) => text,
    };
    let max_len: usize = match args::int_arg(op, args, 1, "max_len") {
        Err(e) => {
            return Err(e);
        },
        Ok(n) => match runtime::non_negative_index(n, "max_len") {
            Err(e) => {
                return Err(e);
            },
            Ok(n) => n,
        },
    };
    let pad_token: i64 = match args::int_arg(op, args, 2, "pad_token") {
        Err(e) => {
            return Err(e);
        },
        Ok(n) => n,
    };
    let special: bool = match args::bool_arg(op, args, 3, "add_special_tokens") {
        Err(e) => {
            return Err(e);
        },
        Ok(b) => b,
    };
    match &context.tokenizer {
        None => Err(host_error("tokenizer has not been loaded")),
        Some(tokenizer) => {
            let encoded: Result<Encoded, String> = encode_with(
                tokenizer.as_str(),
                text,
                special,
                beyond,
            );
            let ghost e = encoded_view(encoded);
            let r: VmResult<(IntTensor, IntTensor)> = token_row_padded(
                encoded,
                max_len,
                pad_token,
            );
            assert(encodes(tokenizer@, text@, special, beyond, e));
            assert(encodes_padded(
                tokenizer@,
                text@,
                max_len as nat,
                pad_token,
                special,
                beyond,
                pair_result(r),
            ));
            r
        },
    }
}

/// The token numbers among integers, from the place `from` on: those that fit a token number.
pub open spec fn token_ids(ids: Seq<i64>, from: int) -> Seq<u32>
    decreases ids.len() - from,
{
    if from < 0 || from >= ids.len() {
        Seq::empty()
    } else if 0 <= ids[from] <= u32::MAX {
        seq![ids[from] as u32] + token_ids(ids, from + 1)
    } else {
        token_ids(ids, from + 1)
    }
}

/// The token numbers among integers, from the place `from` on.
pub fn generated_ids(ids: &Vec<i64>, from: usize) -> (r: Vec<u32>)
    ensures
        r@ == token_ids(ids@, from as int),
{
    let mut out: Vec<u32> = Vec::new();
    let mut i: usize = from;
    assert(out@ + token_ids(ids@, from as int) =~= token_ids(ids@, from as int));
    while i < ids.len()
        invariant
            from <= i,
            out@ + token_ids(ids@, i as int) == token_ids(ids@, from as int),
        decreases ids@.len() - i,
    {
        let id: i64 = ids[i];
        let ghost before = out@;
        if 0 <= id && id <= u32::MAX as i64 {
            out.push(id as u32);
            assert(out@ + token_ids(ids@, i + 1) =~= before + (seq![id as u32] + token_ids(
                ids@,
                i + 1,
            )));
        }
        i = i + 1;
    }
    assert(out@ =~= out@ + Seq::<u32>::empty());
    out
}

/// The message on tokens that cannot be decoded.
pub open spec fn decode_failure(reason: Seq<char>) -> ErrorView {
    ErrorView::Host("tokenizer decode failed: "@ + reason)
}

/// What a script gets for decoded tokens.
pub open spec fn text_outcome(decoded: Result<Seq<char>, Seq<char>>) -> Result<
    ValueView,
    ErrorView,
> {
    match decoded {
        Ok(s) => Ok(ValueView::String(s)),
        Err(m) => Err(decode_failure(m)),
    }
}

/// What a script gets for decoded tokens.
pub fn text_result(decoded: Result<String, String>) -> (r: VmResult<Value>)
    ensures
        runtime::outcome(r) == text_outcome(decoded_view(decoded)),
{
    match decoded {
        Ok(s) => Ok(Value::String(s)),
        Err(m) => Err(
            host_error(text::join2("tokenizer decode failed: ", m.as_str()).as_str()),
        ),
    }
}

/// Whether `r` is what decoding these tokens comes to, without the special ones.
pub open spec fn decode_result<T, B: FnOnce(&str, &Vec<u32>, bool) -> Result<String, String>>(
    c: ContextView<T>,
    ids: Seq<u32>,
    beyond: B,
    r: Result<ValueView, ErrorView>,
) -> bool {
    match c.tokenizer {
        None => r == Err::<ValueView, ErrorView>(no_tokenizer()),
        Some(tokenizer) => decodes_to(tokenizer, ids, beyond, r),
    }
}

/// Whether `r` is a decoding that the tokenizer can give.
pub open spec fn decodes_to<B: FnOnce(&str, &Vec<u32>, bool) -> Result<String, String>>(
    tokenizer: Seq<char>,
    ids: Seq<u32>,
    beyond: B,
    r: Result<ValueView, ErrorView>,
) -> bool {
    exists|d: Result<Seq<char>, Seq<char>>| #[trigger]
        decodes(tokenizer, ids, true, beyond, d) && r == text_outcome(d)
}

fn decode_tokens<T, B: FnOnce(&str, &Vec<u32>, bool) -> Result<String, String>>(
    context: &TorchContext<T>,
    ids: &Vec<u32>,
    beyond: B,
) -> (r: VmResult<Value>)
    requires
        forall|t: &str, v: &Vec<u32>, b: bool| #[trigger] call_requires(beyond, (t, v, b)),
    ensures
        decode_result(context@, ids@, beyond, runtime::outcome(r)),
{
    match &context.tokenizer {
        None => Err(host_error("tokenizer has not been loaded")),
        Some(tokenizer) => {
            let decoded: Result<String, String> = decode_with(
                tokenizer.as_str(),
                ids,
                true,
                beyond,
            );
            let ghost d = decoded_view(decoded);
            let r: VmResult<Value> = text_result(decoded);
            assert(decodes(tokenizer@, ids@, true, beyond, d));
            assert(decodes_to(tokenizer@, ids@, beyond, runtime::outcome(r)));
            r
        },
    }
}

/// What the script asks for: the handle of the tokens and the length of the prompt before them.
pub open spec fn generated_request<T>(c: ContextView<T>, args: Seq<Value>) -> Result<
    (i64, int),
    ErrorView,
> {
    match args::tensor_at(c, args, 0, "tokens"@) {
        Err(e) => Err(e),
        Ok(tokens) => match args::int_at(c.active_host_op, args, 1, "prompt_len"@) {
            Err(e) => Err(e),
            Ok(n) => match runtime::index_outcome(n, "prompt length"@) {
                Err(e) => Err(e),
                Ok(n) => Ok((tokens, n)),
            },
        },
    }
}

/// Reads what the script asks for.
pub fn decode_generated_request<T>(context: &TorchContext<T>, args: &[Value]) -> (r: VmResult<
    (i64, usize),
>)
    ensures
        match r {
            Ok((tokens, n)) => generated_request(context@, args@) == Ok::<(i64, int), ErrorView>(
                (tokens, n as int),
            ),
            Err(e) => generated_request(context@, args@) == Err::<(i64, int), ErrorView>(e@),
        },
{
    match args::tensor_arg(context, args, 0, "tokens") {
        Err(e) => Err(e),
        Ok(tokens) => match args::int_arg(&context.active_host_op, args, 1, "prompt_len") {
            Err(e) => Err(e),
            Ok(n) => match runtime::non_negative_index(n, "prompt length") {
                Err(e) => Err(e),
                Ok(n) => Ok((tokens, n)),
            },
        },
    }
}

/// Decodes the tokens behind a prompt; `ids` are the numbers in the tensor of tokens, and `beyond`
/// decodes with the tokenizers that are not plain.
pub fn tokenizer_decode_generated<T, B: FnOnce(&str, &Vec<u32>, bool) -> Result<String, String>>(
    context: &TorchContext<T>,
    ids: &Vec<i64>,
    prompt_len: usize,
    beyond: B,
) -> (r: VmResult<Value>)
    requires
        forall|t: &str, v: &Vec<u32>, b: bool| #[trigger] call_requires(beyond, (t, v, b)),
    ensures
        decode_result(context@, token_ids(ids@, prompt_len as int), beyond, runtime::outcome(r)),
{
    let generated: Vec<u32> = generated_ids(ids, prompt_len);
    decode_tokens(context, &generated, beyond)
}

/// The message on a host function that takes no arguments.
pub open spec fn takes_no_arguments(name: Seq<char>) -> ErrorView {
    ErrorView::Host(name + " takes no arguments"@)
}

/// Forgets the tokens that were gathered.
pub fn tokenizer_clear_generated_tokens<T>(context: &mut TorchContext<T>, args: &[Value]) -> (r:
    VmResult<Value>)
    requires
        old(context).wf(),
    ensures
        final(context).wf(),
        if args@.len() > 0 {
            &&& runtime::outcome(r) == Err::<ValueView, ErrorView>(
                takes_no_arguments("clear_generated_tokens"@),
            )
            &&& final(context)@ == old(context)@
        } else {
            &&& runtime::outcome(r) == Ok::<ValueView, ErrorView>(ValueView::Bool(true))
            &&& final(context)@ == (ContextView {
                generated_token_tensors: Seq::empty(),
                ..old(context)@
            })
        },
{
    if args.len() > 0 {
        return Err(
            host_error(text::join2("clear_generated_tokens", " takes no arguments").as_str()),
        );
    }
    context.generated_token_tensors.clear();
    Ok(Value::Bool(true))
}

/// Gathers one more token; `tensor` is the tensor that the script gives.
pub fn push_generated_token<T>(context: &mut TorchContext<T>, tensor: HostTensor<T>) -> (r:
    VmResult<Value>)
    requires
        old(context).wf(),
    ensures
        final(context).wf(),
        runtime::outcome(r) == Ok::<ValueView, ErrorView>(ValueView::Bool(true)),
        final(context)@ == (ContextView {
            generated_token_tensors: old(context)@.generated_token_tensors.push(tensor),
            ..old(context)@
        }),
{
    context.generated_token_tensors.push(tensor);
    Ok(Value::Bool(true))
}

/// Checks the call that decodes the tokens that were gathered; tells whether there are any.
pub fn decode_gathered_request<T>(context: &TorchContext<T>, args: &[Value]) -> (r: VmResult<bool>)
    ensures
        match r {
            Ok(any) => args@.len() == 0 && any == (context@.generated_token_tensors.len() > 0),
            Err(e) => args@.len() > 0 && e@ == takes_no_arguments("decode_generated_tokens"@),
        },
{
    if args.len() > 0 {
        return Err(
            host_error(text::join2("decode_generated_tokens", " takes no arguments").as_str()),
        );
    }
    Ok(context.generated_token_tensors.len() > 0)
}

/// Decodes the tokens that were gathered; `ids` are the numbers in them, in order, and `beyond`
/// decodes with the tokenizers that are not plain.
pub fn tokenizer_decode_generated_tokens<T, B: FnOnce(&str, &Vec<u32>, bool) -> Result<String, String>>(
    context: &TorchContext<T>,
    ids: &Vec<i64>,
    beyond: B,
) -> (r: VmResult<Value>)
    requires
        forall|t: &str, v: &Vec<u32>, b: bool| #[trigger] call_requires(beyond, (t, v, b)),
    ensures
        decode_result(context@, token_ids(ids@, 0), beyond, runtime::outcome(r)),
{
    let generated: Vec<u32> = generated_ids(ids, 0);
    decode_tokens(context, &generated, beyond)
}

/// The token that ends a text.
pub const END_OF_TEXT: i64 = 7;

/// Whether a token ends the text.
pub fn tokenizer_is_eos<T>(context: &TorchContext<T>, args: &[Value]) -> (r: VmResult<Value>)
    ensures
        runtime::outcome(r) == match args::int_at(
            context@.active_host_op,
            args@,
            0,
            "token"@,
        ) {
            Err(e) => Err::<ValueView, ErrorView>(e),
            Ok(token) => Ok(ValueView::Bool(token == END_OF_TEXT)),
        },
{
    match args::int_arg(&context.active_host_op, args, 0, "token") {
        Err(e) => Err(e),
        Ok(token) => Ok(Value::Bool(token == END_OF_TEXT)),
    }
}

/// A tensor with one token in it.
pub fn tokenizer_single_token<T>(context: &TorchContext<T>, args: &[Value]) -> (r: VmResult<
    IntTensor,
>)
    ensures
        tensor_result(r) == match args::int_at(
            context@.active_host_op,
            args@,
            0,
            "token"@,
        ) {
            Err(e) => Err::<IntTensorView, ErrorView>(e),
            Ok(token) => Ok((seq![token], seq![1i64, 1i64])),
        },
{
    match args::int_arg(&context.active_host_op, args, 0, "token") {
        Err(e) => Err(e),
        Ok(token) => {
            let mut values: Vec<i64> = Vec::new();
            values.push(token);
            let mut size: Vec<i64> = Vec::new();
            size.push(1);
            size.push(1);
            assert(values@ =~= seq![token]);
            assert(size@ =~= seq![1i64, 1i64]);
            Ok(IntTensor { values, size })
        },
    }
}

/// A padded row has the length that was asked for, begins with the tokens of the text as far as
/// they fit, and its mask counts them.
pub proof fn law_padding(ids: Seq<i64>, len: nat, pad: i64, i: int)
    requires
        0 <= i < len,
    ensures
        padded(ids, len, pad).len() == len,
        padding_mask(ids.len(), len).len() == len,
        padding_mask(ids.len(), len)[i] == 1 <==> i < ids.len(),
        i < ids.len() ==> padded(ids, len, pad)[i] == ids[i],
        i >= ids.len() ==> padded(ids, len, pad)[i] == pad,
{
}

/// What is decoded are the numbers behind the prompt that a token can have, each as often and in
/// the order as it stands there; where every number is one, nothing is left out.
pub proof fn law_generated_tokens(ids: Seq<i64>, from: int)
    requires
        0 <= from,
    ensures
        from >= ids.len() ==> token_ids(ids, from).len() == 0,
        from <= ids.len() ==> token_ids(ids, from) == ids.skip(from).filter(
            |n: i64| 0 <= n <= u32::MAX,
        ).map_values(|n: i64| n as u32),
        from <= ids.len() && (forall|i: int|
            from <= i < ids.len() ==> 0 <= #[trigger] ids[i] <= u32::MAX) ==> {
            &&& token_ids(ids, from).len() == ids.len() - from
            &&& forall|k: int|
                0 <= k < ids.len() - from ==> #[trigger] token_ids(ids, from)[k] == ids[from + k]
        },
    decreases ids.len() - from,
{
    let fits = |n: i64| 0 <= n <= u32::MAX;
    let narrow = |n: i64| n as u32;
    let rest = ids.skip(from);
    if from > ids.len() {
        assert(token_ids(ids, from) =~= Seq::<u32>::empty());
    } else if from == ids.len() {
        assert(rest =~= Seq::<i64>::empty());
        assert(rest.filter(fits) =~= Seq::<i64>::empty()) by {
            reveal(Seq::filter);
        }
        assert(rest.filter(fits).map_values(narrow) =~= token_ids(ids, from));
    } else {
        law_generated_tokens(ids, from + 1);
        let first = seq![ids[from]];
        let more = ids.skip(from + 1);
        assert(rest =~= first + more);
        Seq::filter_distributes_over_add(first, more, fits);
        assert(first.filter(fits) =~= if fits(ids[from]) {
            first
        } else {
            Seq::<i64>::empty()
        }) by {
            reveal_with_fuel(Seq::filter, 2);
            assert(first.drop_last() =~= Seq::<i64>::empty());
        }
        assert(token_ids(ids, from) =~= rest.filter(fits).map_values(narrow));
        if forall|i: int| from <= i < ids.len() ==> 0 <= #[trigger] ids[i] <= u32::MAX {
            assert(0 <= ids[from] <= u32::MAX);
            assert forall|k: int| 0 <= k < ids.len() - from implies #[trigger] token_ids(
                ids,
                from,
            )[k] == ids[from + k] by {
                if k > 0 {
                    assert(token_ids(ids, from)[k] == token_ids(ids, from + 1)[k - 1]);
                }
            }
        }
    }
}

/// More tokens are decoded behind those that were there: a token that is generated adds itself at
/// the end and changes none before it.
pub proof fn law_next_token(ids: Seq<i64>, from: int, next: u32)
    requires
        0 <= from <= ids.len(),
    ensures
        token_ids(ids.push(next as i64), from) == token_ids(ids, from).push(next),
    decreases ids.len() - from,
{
    let longer = ids.push(next as i64);
    if from == ids.len() {
        assert(token_ids(longer, from + 1) =~= Seq::<u32>::empty());
        assert(token_ids(longer, from) =~= token_ids(ids, from).push(next));
    } else {
        law_next_token(ids, from + 1, next);
        assert(longer[from] == ids[from]);
        assert(token_ids(longer, from) =~= token_ids(ids, from).push(next));
    }
}

/// The tokens of a prompt become one row with each of them in its place.
pub proof fn law_row_of_tokens(ids: Seq<u32>, offsets: Seq<(usize, usize)>, m: Seq<char>)
    requires
        ids.len() <= i64::MAX,
    ensures
        row_outcome(Ok((ids, offsets))) matches Ok(row) && {
            &&& row.0.len() == ids.len()
            &&& forall|i: int| 0 <= i < ids.len() ==> #[trigger] row.0[i] == ids[i]
            &&& row.1.len() == 2
            &&& row.1[0] == 1
            &&& row.1[1] == ids.len()
        },
        row_outcome(Err(m)) is Err,
{
}

/// A padded row is as long as asked: the tokens in their places as far as they go, then the pad
/// token; its mask has a one for each token and a zero for each pad.
pub proof fn law_padded_row(
    ids: Seq<u32>,
    offsets: Seq<(usize, usize)>,
    len: nat,
    pad: i64,
    m: Seq<char>,
)
    requires
        len <= i64::MAX,
    ensures
        padded_outcome(Ok((ids, offsets)), len, pad) matches Ok((row, mask)) && {
            &&& row.0.len() == len
            &&& mask.0.len() == len
            &&& forall|i: int|
                0 <= i < len && i < ids.len() ==> #[trigger] row.0[i] == ids[i] && mask.0[i] == 1
            &&& forall|i: int|
                ids.len() <= i < len ==> #[trigger] row.0[i] == pad && mask.0[i] == 0
            &&& row.1 == mask.1
            &&& row.1.len() == 2
            &&& row.1[0] == 1
            &&& row.1[1] == len
        },
        padded_outcome(Err(m), len, pad) is Err,
{
}

/// A chat prompt says what the system says, then what the user says, each in its own turn, and
/// ends where the assistant begins.
pub proof fn law_chat_prompt(system: Seq<char>, user: Seq<char>)
    ensures
        text::has_prefix(
            chat_prompt(system, user),
            "<|startoftext|><|im_start|>system\n"@ + system + "<|im_end|>\n"@,
        ),
        text::has_suffix(
            chat_prompt(system, user),
            "<|im_start|>user\n"@ + user + "<|im_end|>\n<|im_start|>assistant\n"@,
        ),
        chat_prompt(system, user).len() == system.len() + user.len() + 95,
{
    reveal_strlit("<|startoftext|><|im_start|>system\n");
    reveal_strlit("<|im_end|>\n");
    reveal_strlit("<|im_start|>user\n");
    reveal_strlit("<|im_end|>\n<|im_start|>user\n");
    reveal_strlit("<|im_end|>\n<|im_start|>assistant\n");
    let prompt = chat_prompt(system, user);
    let head = "<|startoftext|><|im_start|>system\n"@ + system + "<|im_end|>\n"@;
    let tail = "<|im_start|>user\n"@ + user + "<|im_end|>\n<|im_start|>assistant\n"@;
    assert("<|im_end|>\n<|im_start|>user\n"@ =~= "<|im_end|>\n"@ + "<|im_start|>user\n"@);
    assert(prompt =~= head + tail);
    assert(prompt.take(head.len() as int) =~= head);
    assert(prompt.skip(prompt.len() - tail.len()) =~= tail);
}

proof fn lemma_repeated(s: Seq<char>, n: nat)
    ensures
        repeated(s, n).len() == n * s.len(),
        forall|k: int|
            0 <= k < n ==> #[trigger] repeated(s, n).subrange(k * s.len(), (k + 1) * s.len()) == s,
    decreases n,
{
    let len = s.len() as int;
    if n > 0 {
        lemma_repeated(s, (n - 1) as nat);
        let shorter = repeated(s, (n - 1) as nat);
        assert((n - 1) * len + len == n * len) by (nonlinear_arith);
        assert forall|k: int| 0 <= k < n implies #[trigger] repeated(s, n).subrange(
            k * len,
            (k + 1) * len,
        ) == s by {
            assert(k * len + len == (k + 1) * len) by (nonlinear_arith);
            if k < n - 1 {
                assert(0 <= k * len && (k + 1) * len <= (n - 1) * len) by (nonlinear_arith)
                    requires
                        0 <= k < n - 1,
                        0 <= len,
                ;
                assert(repeated(s, n).subrange(k * len, (k + 1) * len) =~= shorter.subrange(
                    k * len,
                    (k + 1) * len,
                ));
            } else {
                assert(repeated(s, n).subrange(k * len, (k + 1) * len) =~= s);
            }
        }
    } else {
        assert(0 * len == 0);
    }
}

/// A prompt on a picture is a chat prompt whose user turn begins with the picture: as many picture
/// tokens as asked for, between the marks of its start and its end.
pub proof fn law_vl_prompt(system: Seq<char>, user: Seq<char>, n: nat)
    ensures
        ({
            let prompt = vl_prompt(system, user, n);
            let head = "<|startoftext|><|im_start|>system\n"@ + system
                + "<|im_end|>\n<|im_start|>user\n"@ + "<|image_start|>"@;
            let tail = "<|image_end|>"@ + user + "<|im_end|>\n<|im_start|>assistant\n"@;
            &&& text::has_prefix(prompt, head)
            &&& text::has_suffix(prompt, tail)
            &&& prompt.len() == head.len() + 7 * n + tail.len()
            &&& forall|k: int|
                0 <= k < n ==> #[trigger] prompt.skip(head.len() as int).subrange(
                    k * 7,
                    (k + 1) * 7,
                ) == "<image>"@
        }),
{
    reveal_strlit("<|im_end|>\n<|im_start|>user\n<|image_start|>");
    reveal_strlit("<|im_end|>\n<|im_start|>user\n");
    reveal_strlit("<|image_start|>");
    reveal_strlit("<image>");
    let prompt = vl_prompt(system, user, n);
    let head = "<|startoftext|><|im_start|>system\n"@ + system + "<|im_end|>\n<|im_start|>user\n"@
        + "<|image_start|>"@;
    let tail = "<|image_end|>"@ + user + "<|im_end|>\n<|im_start|>assistant\n"@;
    let images = repeated("<image>"@, n);
    assert("<|im_end|>\n<|im_start|>user\n<|image_start|>"@ =~= "<|im_end|>\n<|im_start|>user\n"@
        + "<|image_start|>"@);
    assert(prompt =~= head + images + tail);
    lemma_repeated("<image>"@, n);
    assert(prompt.take(head.len() as int) =~= head);
    assert(prompt.skip(prompt.len() - tail.len()) =~= tail);
    assert forall|k: int| 0 <= k < n implies #[trigger] prompt.skip(head.len() as int).subrange(
        k * 7,
        (k + 1) * 7,
    ) == "<image>"@ by {
        assert(images.subrange(k * 7, (k + 1) * 7) == "<image>"@);
        assert(prompt.skip(head.len() as int).subrange(k * 7, (k + 1) * 7) =~= images.subrange(
            k * 7,
            (k + 1) * 7,
        ));
    }
}

/// With a plain tokenizer, the row of a prompt holds tokens that the tokenizer can give for the
/// prompt without special ones, and the text of generated tokens is one that it can give for them
/// without special ones; without a tokenizer there is neither.
pub proof fn law_tokenizer_is_asked<T, E, D>(
    c: ContextView<T>,
    prompt: Seq<char>,
    encode_beyond: E,
    row: Result<IntTensorView, ErrorView>,
    ids: Seq<u32>,
    decode_beyond: D,
    text: Result<ValueView, ErrorView>,
) where
    E: FnOnce(&str, &str, bool) -> Result<Encoded, String>,
    D: FnOnce(&str, &Vec<u32>, bool) -> Result<String, String>,

    requires
        prompt_result(c, prompt, encode_beyond, row),
        decode_result(c, ids, decode_beyond, text),
    ensures
        c.tokenizer is None ==> row is Err && text is Err,
        c.tokenizer is Some && support::is_encodable(c.tokenizer->0) && row is Ok ==> exists|
            given: Seq<u32>,
            offsets: Seq<(usize, usize)>,
        | #[trigger]
            may_encode(c.tokenizer->0, prompt, false, Ok((given, offsets))) && row->Ok_0.0.len()
                == given.len() && forall|i: int|
                0 <= i < given.len() ==> row->Ok_0.0[i] == #[trigger] given[i],
        c.tokenizer is Some && support::is_decodable(c.tokenizer->0) && text is Ok ==> exists|
            given: Seq<char>,
        | #[trigger]
            may_decode(c.tokenizer->0, ids, true, Ok(given)) && text->Ok_0 == ValueView::String(
                given,
            ),
{
    if c.tokenizer is Some {
        let tokenizer = c.tokenizer->0;
        let e = choose|e: EncodedView| #[trigger]
            encodes(tokenizer, prompt, false, encode_beyond, e) && row == row_outcome(e);
        if support::is_encodable(tokenizer) && row is Ok {
            let (given, offsets) = e->Ok_0;
            assert(may_encode(tokenizer, prompt, false, Ok((given, offsets))));
        }
        let d = choose|d: Result<Seq<char>, Seq<char>>| #[trigger]
            decodes(tokenizer, ids, true, decode_beyond, d) && text == text_outcome(d);
        if support::is_decodable(tokenizer) && text is Ok {
            let given = d->Ok_0;
            assert(may_decode(tokenizer, ids, true, Ok(given)));
        }
    }
}

/// Generated tokens are decoded from the tensor and behind the prompt that a script gives.
pub proof fn law_generated_request<T>(c: ContextView<T>, args: Seq<Value>)
    requires
        c.wf(),
    ensures
        generated_request(c, args) matches Ok((tokens, from)) ==> {
            &&& args.len() >= 2
            &&& args[0] == Value::Int(tokens) && c.tensors.contains_key(tokens)
            &&& args[1] is Int && args[1]->Int_0 == from && from >= 0
        },
        args.len() >= 2 && (args[0] is Int && c.tensors.contains_key(args[0]->Int_0)) && (args[1]
            is Int && 0 <= args[1]->Int_0 <= usize::MAX) ==> generated_request(c, args) is Ok,
{
}

/// With a plain tokenizer, a padded row holds tokens that the tokenizer can give for the text, with
/// or without special ones as asked for; without a tokenizer there is none.
pub proof fn law_padded_row_is_encoded<T, E>(
    c: ContextView<T>,
    text: Seq<char>,
    len: nat,
    pad: i64,
    special: bool,
    beyond: E,
    r: Result<(IntTensorView, IntTensorView), ErrorView>,
) where E: FnOnce(&str, &str, bool) -> Result<Encoded, String>
    requires
        encode_padded_result(c, text, len, pad, special, beyond, r),
        len <= i64::MAX,
    ensures
        c.tokenizer is None ==> r is Err,
        c.tokenizer is Some && support::is_encodable(c.tokenizer->0) && r is Ok ==> exists|
            given: Seq<u32>,
            offsets: Seq<(usize, usize)>,
        |
            {
                &&& #[trigger] may_encode(c.tokenizer->0, text, special, Ok((given, offsets)))
                &&& r->Ok_0.0.0.len() == len
                &&& forall|i: int|
                    0 <= i < len && i < given.len() ==> r->Ok_0.0.0[i] == #[trigger] given[i]
                &&& forall|i: int|
                    given.len() <= i < len ==> #[trigger] r->Ok_0.0.0[i] == pad
            },
{
    if c.tokenizer is Some {
        let tokenizer = c.tokenizer->0;
        let e = choose|e: EncodedView| #[trigger]
            encodes(tokenizer, text, special, beyond, e) && r == padded_outcome(e, len, pad);
        if support::is_encodable(tokenizer) && r is Ok {
            let (given, offsets) = e->Ok_0;
            law_padded_row(given, offsets, len, pad, Seq::empty());
            assert(may_encode(tokenizer, text, special, Ok((given, offsets))));
        }
    }
}

/// A tokenizer is read from the path that is asked for, unless that path is the one it is known by.
pub proof fn law_tokenizer_is_read(path: Seq<char>, same: bool, r: VmResult<TokenizerPlan>)
    requires
        tokenizer_step(path, same, r),
    ensures
        same ==> (r matches Ok(TokenizerPlan::Loaded(v)) && v == Value::Bool(true)),
        !same ==> (r matches Ok(TokenizerPlan::Read(p)) && p@ == path),
{
}

} // verus!
