//! The state that host functions share during a run: tensors, weights, pairs and outputs.
use std::time::{Duration, Instant};

use vstd::hash_map::StringHashMap;
use vstd::prelude::*;
use vstd::string::*;

use crate::cli::{CliTables, CliView};
use crate::clock;
use crate::device::Device;
use crate::tables::{HandleMap, NameMap};
use crate::text;
use crate::value::{host_error, return_int, ErrorView, Value, VmResult};

verus! {

/// The element types of tensors.
#[derive(Clone, Copy, Debug, PartialEq, Eq, Structural)]
pub enum Kind {
    Uint8,
    Int8,
    Int16,
    Int,
    Int64,
    Half,
    Float,
    Double,
    ComplexHalf,
    ComplexFloat,
    ComplexDouble,
    Bool,
    QInt8,
    QUInt8,
    QInt32,
    BFloat16,
    Float8e5m2,
    Float8e4m3fn,
    Float8e5m2fnuz,
    Float8e4m3fnuz,
}

/// A tensor as host functions see it: its sizes, its element type, and the elements themselves,
/// which only the executor reads.
pub struct HostTensor<T> {
    pub size: Vec<i64>,
    pub kind: Kind,
    pub data: T,
}

/// Two tensors under one handle.
#[derive(Clone, Copy, Debug, PartialEq, Eq, Structural)]
pub struct FfcPair {
    pub local: i64,
    pub global: i64,
}

/// Which of the two rotation tables.
#[derive(Clone, Copy, Debug, PartialEq, Eq, Structural)]
pub enum RopeKind {
    Cos,
    Sin,
}

/// What a rotation table was made for.
#[derive(Clone, Copy, Debug, PartialEq, Eq, Structural)]
pub struct RopeCacheKey {
    pub kind: RopeKind,
    pub head_dim: usize,
    pub theta_bits: u32,
}

/// A rotation table with what it was made for and how many positions it holds.
pub struct RopeEntry<T> {
    pub key: RopeCacheKey,
    pub len: i64,
    pub table: T,
}

/// The three taps of a convolution kernel.
pub struct Conv1dStepWeights<T> {
    pub w0: T,
    pub w1: T,
    pub w2: T,
}

/// How often a host function ran, and for how long in all.
#[derive(Debug)]
pub struct HostOpStats {
    pub name: String,
    pub count: u64,
    pub nanos: u128,
}

/// The model of [`HostOpStats`].
pub struct StatsView {
    pub name: Seq<char>,
    pub count: u64,
    pub nanos: u128,
}

impl View for HostOpStats {
    type V = StatsView;

    open spec fn view(&self) -> StatsView {
        StatsView { name: self.name@, count: self.count, nanos: self.nanos }
    }
}

/// The models of statistics.
pub open spec fn stats_views(s: Seq<HostOpStats>) -> Seq<StatsView> {
    Seq::new(s.len(), |i: int| s[i]@)
}

/// What a script that produces text leaves behind.
pub struct ScriptTextOutput {
    pub text: String,
    pub generated_tokens: Option<i64>,
    pub elapsed: Option<Duration>,
    pub decode_tokens: Option<i64>,
    pub decode_elapsed: Option<Duration>,
}

/// The state of a run.
#[verifier::reject_recursive_types(T)]
pub struct TorchContext<T> {
    pub device: Device,
    pub weights: StringHashMap<HostTensor<T>>,
    pub weight_handles: NameMap,
    pub weights_path: Option<String>,
    pub weights_kind: Option<Kind>,
    pub tokenizer: Option<String>,
    pub tokenizer_path: Option<String>,
    pub cache: StringHashMap<HostTensor<T>>,
    pub rope_cache: Vec<RopeEntry<T>>,
    pub conv1d_step_weights: HandleMap<Conv1dStepWeights<T>>,
    pub tensors: HandleMap<HostTensor<T>>,
    pub missing_weight_handles: HandleMap<String>,
    pub pairs: HandleMap<FfcPair>,
    pub inputs: Vec<i64>,
    pub args: Vec<String>,
    pub output: Option<i64>,
    pub text_output: Option<String>,
    pub generation_started_at: Option<Instant>,
    pub generated_tokens: Option<i64>,
    pub decode_started_at: Option<Instant>,
    pub decode_tokens: Option<i64>,
    pub generated_token_tensors: Vec<HostTensor<T>>,
    pub host_op_profile_enabled: bool,
    pub host_op_stats: Vec<HostOpStats>,
    pub active_host_op: Option<String>,
    pub next_tensor: i64,
    pub next_missing_weight: i64,
    pub next_pair: i64,
    pub cli: CliTables,
}

/// The model of a [`TorchContext`].
#[verifier::ext_equal]
#[verifier::reject_recursive_types(T)]
pub struct ContextView<T> {
    pub device: Device,
    pub weights: Map<Seq<char>, HostTensor<T>>,
    pub weight_handles: Map<Seq<char>, i64>,
    pub weights_path: Option<Seq<char>>,
    pub weights_kind: Option<Kind>,
    pub tokenizer: Option<Seq<char>>,
    pub tokenizer_path: Option<Seq<char>>,
    pub cache: Map<Seq<char>, HostTensor<T>>,
    pub rope_cache: Seq<RopeEntry<T>>,
    pub conv1d_step_weights: Map<i64, Conv1dStepWeights<T>>,
    pub tensors: Map<i64, HostTensor<T>>,
    pub missing_weight_handles: Map<i64, Seq<char>>,
    pub pairs: Map<i64, FfcPair>,
    pub inputs: Seq<i64>,
    pub args: Seq<Seq<char>>,
    pub output: Option<i64>,
    pub text_output: Option<Seq<char>>,
    pub generation_started_at: Option<Instant>,
    pub generated_tokens: Option<i64>,
    pub decode_started_at: Option<Instant>,
    pub decode_tokens: Option<i64>,
    pub generated_token_tensors: Seq<HostTensor<T>>,
    pub host_op_profile_enabled: bool,
    pub host_op_stats: Seq<StatsView>,
    pub active_host_op: Option<Seq<char>>,
    pub next_tensor: i64,
    pub next_missing_weight: i64,
    pub next_pair: i64,
    pub cli: CliView,
}

/// The text of an optional string.
pub open spec fn opt_text(s: Option<String>) -> Option<Seq<char>> {
    match s {
        Some(s) => Some(s@),
        None => None,
    }
}

impl<T> View for TorchContext<T> {
    type V = ContextView<T>;

    open spec fn view(&self) -> ContextView<T> {
        ContextView {
            device: self.device,
            weights: self.weights@,
            weight_handles: self.weight_handles@,
            weights_path: opt_text(self.weights_path),
            weights_kind: self.weights_kind,
            tokenizer: opt_text(self.tokenizer),
            tokenizer_path: opt_text(self.tokenizer_path),
            cache: self.cache@,
            rope_cache: self.rope_cache@,
            conv1d_step_weights: self.conv1d_step_weights@,
            tensors: self.tensors@,
            missing_weight_handles: self.missing_weight_handles@.map_values(|s: String| s@),
            pairs: self.pairs@,
            inputs: self.inputs@,
            args: text::views(self.args@),
            output: self.output,
            text_output: opt_text(self.text_output),
            generation_started_at: self.generation_started_at,
            generated_tokens: self.generated_tokens,
            decode_started_at: self.decode_started_at,
            decode_tokens: self.decode_tokens,
            generated_token_tensors: self.generated_token_tensors@,
            host_op_profile_enabled: self.host_op_profile_enabled,
            host_op_stats: stats_views(self.host_op_stats@),
            active_host_op: opt_text(self.active_host_op),
            next_tensor: self.next_tensor,
            next_missing_weight: self.next_missing_weight,
            next_pair: self.next_pair,
            cli: self.cli@,
        }
    }
}

impl<T> ContextView<T> {
    /// Handles of tensors and pairs lie between one and their counters, handles of missing
    /// weights between their counter and zero, and each rotation table is listed once.
    pub open spec fn wf(self) -> bool {
        &&& 1 <= self.next_tensor
        &&& self.next_missing_weight <= -1
        &&& 1 <= self.next_pair
        &&& forall|h: i64| #[trigger] self.tensors.contains_key(h) ==> 1 <= h < self.next_tensor
        &&& forall|h: i64| #[trigger]
            self.missing_weight_handles.contains_key(h) ==> self.next_missing_weight < h <= -1
        &&& forall|h: i64| #[trigger] self.pairs.contains_key(h) ==> 1 <= h < self.next_pair
        &&& forall|i: int, j: int|
            0 <= i < j < self.rope_cache.len() ==> self.rope_cache[i].key
                != self.rope_cache[j].key
        &&& forall|i: int, j: int|
            0 <= i < j < self.host_op_stats.len() ==> self.host_op_stats[i].name
                != self.host_op_stats[j].name
        &&& self.cli.wf()
    }
}

impl<T> TorchContext<T> {
    /// The state is in order.
    pub open spec fn wf(&self) -> bool {
        self.weight_handles.wf() && self@.wf()
    }
}

/// The context of a run that has not begun.
pub open spec fn fresh_context<T>(device: Device, profile: bool) -> ContextView<T> {
    ContextView {
        device,
        weights: Map::empty(),
        weight_handles: Map::empty(),
        weights_path: None,
        weights_kind: None,
        tokenizer: None,
        tokenizer_path: None,
        cache: Map::empty(),
        rope_cache: Seq::empty(),
        conv1d_step_weights: Map::empty(),
        tensors: Map::empty(),
        missing_weight_handles: Map::empty(),
        pairs: Map::empty(),
        inputs: Seq::empty(),
        args: Seq::empty(),
        output: None,
        text_output: None,
        generation_started_at: None,
        generated_tokens: None,
        decode_started_at: None,
        decode_tokens: None,
        generated_token_tensors: Seq::empty(),
        host_op_profile_enabled: profile,
        host_op_stats: Seq::empty(),
        active_host_op: None,
        next_tensor: 1,
        next_missing_weight: -1i64,
        next_pair: 1,
        cli: CliView { parsers: Map::empty(), references: Map::empty(), next_handle: 1 },
    }
}

/// The context as a run with these arguments begins: what earlier runs made is gone, and the
/// model, its tokenizer and the switches stay.
pub open spec fn begun<T>(c: ContextView<T>, args: Seq<Seq<char>>) -> ContextView<T> {
    ContextView {
        args,
        weights: c.weights,
        weights_path: c.weights_path,
        weights_kind: c.weights_kind,
        tokenizer: c.tokenizer,
        tokenizer_path: c.tokenizer_path,
        active_host_op: c.active_host_op,
        ..fresh_context(c.device, c.host_op_profile_enabled)
    }
}

/// The context with one more tensor.
pub open spec fn with_tensor<T>(c: ContextView<T>, tensor: HostTensor<T>) -> ContextView<T> {
    ContextView {
        tensors: c.tensors.insert(c.next_tensor, tensor),
        next_tensor: (c.next_tensor + 1) as i64,
        ..c
    }
}

/// The context with one more pair.
pub open spec fn with_pair<T>(c: ContextView<T>, pair: FfcPair) -> ContextView<T> {
    ContextView {
        pairs: c.pairs.insert(c.next_pair, pair),
        next_pair: (c.next_pair + 1) as i64,
        ..c
    }
}

/// What looking a tensor up gives.
pub open spec fn tensor_outcome<T>(c: ContextView<T>, handle: i64) -> Result<
    HostTensor<T>,
    ErrorView,
> {
    if c.missing_weight_handles.contains_key(handle) {
        Err(
            ErrorView::Host(
                "missing optional weight '"@ + c.missing_weight_handles[handle] + "'"@,
            ),
        )
    } else if c.tensors.contains_key(handle) {
        Ok(c.tensors[handle])
    } else {
        Err(unknown_tensor(c.active_host_op, handle))
    }
}

/// The message on a handle that names no tensor.
pub open spec fn unknown_tensor(op: Option<Seq<char>>, handle: i64) -> ErrorView {
    match op {
        Some(op) => ErrorView::Host(
            "unknown tensor handle "@ + text::decimal(handle as int) + " in "@ + op,
        ),
        None => ErrorView::Host("unknown tensor handle "@ + text::decimal(handle as int)),
    }
}

/// What looking a weight up gives.
pub open spec fn weight_outcome<T>(c: ContextView<T>, name: Seq<char>) -> Result<
    HostTensor<T>,
    ErrorView,
> {
    if c.weights.contains_key(name) {
        Ok(c.weights[name])
    } else {
        Err(ErrorView::Host("missing weight '"@ + name + "'"@))
    }
}

/// What looking a pair up gives.
pub open spec fn pair_outcome<T>(c: ContextView<T>, handle: i64) -> Result<FfcPair, ErrorView> {
    if c.pairs.contains_key(handle) {
        Ok(c.pairs[handle])
    } else {
        Err(ErrorView::Host("unknown FFC pair handle "@ + text::decimal(handle as int)))
    }
}

impl<T> TorchContext<T> {
    /// A context in which nothing has run.
    pub fn new(device: Device, profile: bool) -> (r: Self)
        ensures
            r.wf(),
            r@ == fresh_context::<T>(device, profile),
    {
        let r: TorchContext<T> = TorchContext {
            device,
            weights: StringHashMap::new(),
            weight_handles: NameMap::new(),
            weights_path: None,
            weights_kind: None,
            tokenizer: None,
            tokenizer_path: None,
            cache: StringHashMap::new(),
            rope_cache: Vec::new(),
            conv1d_step_weights: HandleMap::new(),
            tensors: HandleMap::new(),
            missing_weight_handles: HandleMap::new(),
            pairs: HandleMap::new(),
            inputs: Vec::new(),
            args: Vec::new(),
            output: None,
            text_output: None,
            generation_started_at: None,
            generated_tokens: None,
            decode_started_at: None,
            decode_tokens: None,
            generated_token_tensors: Vec::new(),
            host_op_profile_enabled: profile,
            host_op_stats: Vec::new(),
            active_host_op: None,
            next_tensor: 1,
            next_missing_weight: -1,
            next_pair: 1,
            cli: CliTables::new(),
        };
        assert(r@ =~= fresh_context::<T>(device, profile));
        r
    }

    /// Adds a tensor and gives its handle.
    pub fn insert_tensor(&mut self, tensor: HostTensor<T>) -> (r: i64)
        requires
            old(self).wf(),
            old(self).next_tensor < i64::MAX,
        ensures
            final(self).wf(),
            r == old(self)@.next_tensor,
            final(self)@ == with_tensor(old(self)@, tensor),
    {
        let handle: i64 = self.next_tensor;
        self.next_tensor = handle + 1;
        self.tensors.insert(handle, tensor);
        assert(self@ =~= with_tensor(old(self)@, tensor));
        handle
    }

    /// The tensor of a handle.
    pub fn tensor(&self, handle: i64) -> (r: VmResult<&HostTensor<T>>)
        ensures
            match r {
                Ok(tensor) => tensor_outcome(self@, handle) == Ok::<HostTensor<T>, ErrorView>(
                    *tensor,
                ),
                Err(e) => tensor_outcome(self@, handle) == Err::<HostTensor<T>, ErrorView>(e@),
            },
    {
        match self.missing_weight_handles.get(handle) {
            Some(name) => {
                return Err(
                    host_error(
                        text::join3("missing optional weight '", name.as_str(), "'").as_str(),
                    ),
                );
            },
            None => {},
        }
        match self.tensors.get(handle) {
            Some(tensor) => Ok(tensor),
            None => {
                let message: String = text::join2(
                    "unknown tensor handle ",
                    text::decimal_text(handle as i128).as_str(),
                );
                match &self.active_host_op {
                    Some(op) => Err(
                        host_error(text::join3(message.as_str(), " in ", op.as_str()).as_str()),
                    ),
                    None => Err(host_error(message.as_str())),
                }
            },
        }
    }

    /// The weight of a name.
    pub fn weight(&self, name: &str) -> (r: VmResult<&HostTensor<T>>)
        ensures
            match r {
                Ok(tensor) => weight_outcome(self@, name@) == Ok::<HostTensor<T>, ErrorView>(
                    *tensor,
                ),
                Err(e) => weight_outcome(self@, name@) == Err::<HostTensor<T>, ErrorView>(e@),
            },
    {
        match self.weights.get(name) {
            Some(tensor) => Ok(tensor),
            None => Err(host_error(text::join3("missing weight '", name, "'").as_str())),
        }
    }

    /// Adds a pair and gives its handle.
    pub fn insert_pair(&mut self, pair: FfcPair) -> (r: i64)
        requires
            old(self).wf(),
            old(self).next_pair < i64::MAX,
        ensures
            final(self).wf(),
            r == old(self)@.next_pair,
            final(self)@ == with_pair(old(self)@, pair),
    {
        let handle: i64 = self.next_pair;
        self.next_pair = handle + 1;
        self.pairs.insert(handle, pair);
        assert(self@ =~= with_pair(old(self)@, pair));
        handle
    }

    /// The pair of a handle.
    pub fn pair(&self, handle: i64) -> (r: VmResult<FfcPair>)
        ensures
            match r {
                Ok(pair) => pair_outcome(self@, handle) == Ok::<FfcPair, ErrorView>(pair),
                Err(e) => pair_outcome(self@, handle) == Err::<FfcPair, ErrorView>(e@),
            },
    {
        match self.pairs.get(handle) {
            Some(pair) => Ok(*pair),
            None => Err(
                host_error(
                    text::join2(
                        "unknown FFC pair handle ",
                        text::decimal_text(handle as i128).as_str(),
                    ).as_str(),
                ),
            ),
        }
    }

    /// Begins a run with these arguments.
    pub fn begin_args(&mut self, args: Vec<String>)
        requires
            old(self).wf(),
        ensures
            final(self).wf(),
            final(self)@ == begun(old(self)@, text::views(args@)),
    {
        self.tensors.clear();
        self.missing_weight_handles.clear();
        self.pairs.clear();
        self.inputs.clear();
        self.cache.clear();
        self.weight_handles.clear();
        self.rope_cache.clear();
        self.conv1d_step_weights.clear();
        self.output = None;
        self.text_output = None;
        self.generation_started_at = None;
        self.generated_tokens = None;
        self.decode_started_at = None;
        self.decode_tokens = None;
        self.generated_token_tensors.clear();
        self.host_op_stats.clear();
        self.args = args;
        self.next_tensor = 1;
        self.next_missing_weight = -1;
        self.next_pair = 1;
        self.cli = CliTables::new();
        assert(self@ =~= begun(old(self)@, text::views(args@)));
    }

    /// Begins a run on an image and its mask.
    pub fn begin(&mut self, image: HostTensor<T>, mask: HostTensor<T>, args: Vec<String>)
        requires
            old(self).wf(),
        ensures
            final(self).wf(),
            final(self)@ == (ContextView {
                inputs: seq![1i64, 2i64],
                ..with_tensor(
                    with_tensor(begun(old(self)@, text::views(args@)), image),
                    mask,
                )
            }),
    {
        self.begin_args(args);
        let image: i64 = self.insert_tensor(image);
        let mask: i64 = self.insert_tensor(mask);
        self.inputs.push(image);
        self.inputs.push(mask);
        assert(self.inputs@ =~= seq![1i64, 2i64]);
    }
}

/// The context after a run: what the run made is gone.
pub open spec fn finished<T>(c: ContextView<T>) -> ContextView<T> {
    ContextView {
        tensors: Map::empty(),
        missing_weight_handles: Map::empty(),
        pairs: Map::empty(),
        inputs: Seq::empty(),
        cache: Map::empty(),
        weight_handles: Map::empty(),
        rope_cache: Seq::empty(),
        conv1d_step_weights: Map::empty(),
        args: Seq::empty(),
        output: None,
        text_output: None,
        generation_started_at: None,
        generated_tokens: None,
        decode_started_at: None,
        decode_tokens: None,
        ..c
    }
}

/// What a run hands back as its tensor.
pub open spec fn finish_outcome<T>(c: ContextView<T>) -> Result<HostTensor<T>, Seq<char>> {
    match c.output {
        None => Err("RustScript did not publish an output tensor"@),
        Some(handle) => if c.tensors.contains_key(handle) {
            Ok(c.tensors[handle])
        } else {
            Err("RustScript returned unknown tensor handle "@ + text::decimal(handle as int))
        },
    }
}

/// Whether a text output is what a run with these timings leaves behind.
pub open spec fn is_text_output<T>(
    c: ContextView<T>,
    elapsed: Option<Duration>,
    decode_elapsed: Option<Duration>,
    r: ScriptTextOutput,
) -> bool {
    &&& r.text@ == (match c.text_output {
        Some(text) => text,
        None => Seq::<char>::empty(),
    })
    &&& r.generated_tokens == c.generated_tokens
    &&& r.decode_tokens == c.decode_tokens
    &&& r.elapsed == elapsed
    &&& r.decode_elapsed == decode_elapsed
}

/// Whether `elapsed` is a time measured from `start`: none where nothing was started.
pub open spec fn measured(start: Option<Instant>, elapsed: Option<Duration>) -> bool {
    match start {
        None => elapsed is None,
        Some(start) => elapsed is Some && call_ensures(clock::since, (&start,), elapsed->0),
    }
}

/// The place of the statistics of `name`, or the end.
pub open spec fn stats_index(s: Seq<StatsView>, name: Seq<char>, from: int) -> int
    decreases s.len() - from,
{
    if from >= s.len() {
        s.len() as int
    } else if s[from].name == name {
        from
    } else {
        stats_index(s, name, from + 1)
    }
}

/// Statistics with one more run of `name`.
pub open spec fn recorded(s: Seq<StatsView>, name: Seq<char>, nanos: u128) -> Seq<StatsView> {
    let i = stats_index(s, name, 0);
    if i < s.len() {
        s.update(
            i,
            StatsView {
                name,
                count: (s[i].count + 1) as u64,
                nanos: (s[i].nanos + nanos) as u128,
            },
        )
    } else {
        s.push(StatsView { name, count: 1, nanos })
    }
}

impl<T> TorchContext<T> {
    /// Clears what a run made.
    fn clear_run(&mut self)
        requires
            old(self).wf(),
        ensures
            final(self).wf(),
            final(self)@ == finished(old(self)@),
    {
        self.tensors.clear();
        self.missing_weight_handles.clear();
        self.pairs.clear();
        self.inputs.clear();
        self.cache.clear();
        self.weight_handles.clear();
        self.rope_cache.clear();
        self.conv1d_step_weights.clear();
        self.args.clear();
        self.output = None;
        self.text_output = None;
        self.generation_started_at = None;
        self.generated_tokens = None;
        self.decode_started_at = None;
        self.decode_tokens = None;
        assert(self@ =~= finished(old(self)@));
    }

    /// Ends a run and hands its output tensor over.
    ///
    /// A run without a valid output is left as it is.
    pub fn finish(&mut self) -> (r: Result<HostTensor<T>, String>)
        requires
            old(self).wf(),
        ensures
            final(self).wf(),
            match r {
                Ok(tensor) => {
                    &&& finish_outcome(old(self)@) == Ok::<HostTensor<T>, Seq<char>>(tensor)
                    &&& final(self)@ == finished(old(self)@)
                },
                Err(message) => {
                    &&& finish_outcome(old(self)@) == Err::<HostTensor<T>, Seq<char>>(message@)
                    &&& final(self)@ == old(self)@
                },
            },
    {
        let handle: i64 = match self.output {
            Some(handle) => handle,
            None => {
                return Err("RustScript did not publish an output tensor".to_owned());
            },
        };
        match self.tensors.remove(handle) {
            None => {
                assert(self@.tensors =~= old(self)@.tensors);
                Err(
                    text::join2(
                        "RustScript returned unknown tensor handle ",
                        text::decimal_text(handle as i128).as_str(),
                    ),
                )
            },
            Some(tensor) => {
                assert(self@ =~= (ContextView {
                    tensors: old(self)@.tensors.remove(handle),
                    ..old(self)@
                }));
                self.clear_run();
                Ok(tensor)
            },
        }
    }

    /// Ends a run that took these times and hands its text over.
    pub fn finish_text_with(
        &mut self,
        elapsed: Option<Duration>,
        decode_elapsed: Option<Duration>,
    ) -> (r: ScriptTextOutput)
        requires
            old(self).wf(),
        ensures
            final(self).wf(),
            is_text_output(old(self)@, elapsed, decode_elapsed, r),
            final(self)@ == finished(old(self)@),
    {
        let text: String = match self.text_output.take() {
            Some(text) => text,
            None => String::new(),
        };
        let generated_tokens: Option<i64> = self.generated_tokens;
        let decode_tokens: Option<i64> = self.decode_tokens;
        assert(self@ =~= (ContextView { text_output: None, ..old(self)@ }));
        self.clear_run();
        ScriptTextOutput { text, generated_tokens, elapsed, decode_tokens, decode_elapsed }
    }

    /// Ends a run and hands its text over, with the time since each timer that was started.
    pub fn finish_text(&mut self) -> (r: ScriptTextOutput)
        requires
            old(self).wf(),
        ensures
            final(self).wf(),
            is_text_output(old(self)@, r.elapsed, r.decode_elapsed, r),
            measured(old(self)@.generation_started_at, r.elapsed),
            measured(old(self)@.decode_started_at, r.decode_elapsed),
            final(self)@ == finished(old(self)@),
    {
        let elapsed: Option<Duration> = match &self.generation_started_at {
            Some(start) => Some(clock::since(start)),
            None => None,
        };
        let decode_elapsed: Option<Duration> = match &self.decode_started_at {
            Some(start) => Some(clock::since(start)),
            None => None,
        };
        self.finish_text_with(elapsed, decode_elapsed)
    }

    /// Names the host function that runs now, and gives the one that ran before.
    pub fn enter_host_op(&mut self, name: &str) -> (r: Option<String>)
        requires
            old(self).wf(),
        ensures
            final(self).wf(),
            opt_text(r) == old(self)@.active_host_op,
            final(self)@ == (ContextView { active_host_op: Some(name@), ..old(self)@ }),
    {
        let previous: Option<String> = self.active_host_op.take();
        self.active_host_op = Some(name.to_owned());
        previous
    }

    /// Names the host function that runs again.
    pub fn leave_host_op(&mut self, previous: Option<String>)
        requires
            old(self).wf(),
        ensures
            final(self).wf(),
            final(self)@ == (ContextView { active_host_op: opt_text(previous), ..old(self)@ }),
    {
        self.active_host_op = previous;
    }

    /// Adds one run of a host function to the statistics.
    pub fn record_host_op(&mut self, name: &str, nanos: u128)
        requires
            old(self).wf(),
            forall|i: int|
                0 <= i < old(self)@.host_op_stats.len() ==> {
                    let entry = #[trigger] old(self)@.host_op_stats[i];
                    entry.count < u64::MAX && entry.nanos + nanos <= u128::MAX
                },
        ensures
            final(self).wf(),
            final(self)@ == (ContextView {
                host_op_stats: recorded(old(self)@.host_op_stats, name@, nanos),
                ..old(self)@
            }),
    {
        let ghost before = self@.host_op_stats;
        let mut i: usize = 0;
        while i < self.host_op_stats.len()
            invariant
                *self == *old(self),
                old(self).wf(),
                before == old(self)@.host_op_stats,
                i <= self.host_op_stats@.len(),
                stats_index(before, name@, 0) == stats_index(before, name@, i as int),
                forall|k: int| 0 <= k < i ==> (#[trigger] before[k]).name != name@,
                forall|k: int|
                    0 <= k < before.len() ==> {
                        let entry = #[trigger] before[k];
                        entry.count < u64::MAX && entry.nanos + nanos <= u128::MAX
                    },
            decreases self.host_op_stats@.len() - i,
        {
            assert(before[i as int] == self.host_op_stats@[i as int]@);
            if text::same_text(self.host_op_stats[i].name.as_str(), name) {
                let entry: &HostOpStats = &self.host_op_stats[i];
                let next: HostOpStats = HostOpStats {
                    name: name.to_owned(),
                    count: entry.count + 1,
                    nanos: entry.nanos + nanos,
                };
                self.host_op_stats[i] = next;
                assert(self@.host_op_stats =~= recorded(before, name@, nanos));
                return ;
            }
            i = i + 1;
        }
        self.host_op_stats.push(HostOpStats { name: name.to_owned(), count: 1, nanos });
        assert(self@.host_op_stats =~= recorded(before, name@, nanos));
    }

    /// The statistics with the longest times first, where profiling is on and something ran.
    pub fn host_op_profile(&self) -> (r: Option<Vec<HostOpStats>>)
        ensures
            match r {
                None => !self@.host_op_profile_enabled || self@.host_op_stats.len() == 0,
                Some(entries) => {
                    &&& self@.host_op_profile_enabled
                    &&& self@.host_op_stats.len() > 0
                    &&& stats_views(entries@).to_multiset() == self@.host_op_stats.to_multiset()
                    &&& forall|i: int, j: int|
                        0 <= i <= j < entries@.len() ==> entries@[i].nanos >= entries@[j].nanos
                },
            },
    {
        if !self.host_op_profile_enabled || self.host_op_stats.len() == 0 {
            return None;
        }
        let ghost all = self@.host_op_stats;
        let mut out: Vec<HostOpStats> = Vec::new();
        let mut i: usize = 0;
        assert(stats_views(out@) =~= all.take(0));
        while i < self.host_op_stats.len()
            invariant
                i <= self.host_op_stats@.len(),
                all == stats_views(self.host_op_stats@),
                stats_views(out@).to_multiset() == all.take(i as int).to_multiset(),
                out@.len() == i,
                forall|j: int, k: int|
                    0 <= j <= k < out@.len() ==> out@[j].nanos >= out@[k].nanos,
            decreases self.host_op_stats@.len() - i,
        {
            let entry: &HostOpStats = &self.host_op_stats[i];
            let mut at: usize = 0;
            while at < out.len() && out[at].nanos >= entry.nanos
                invariant
                    at <= out@.len(),
                    forall|k: int| 0 <= k < at ==> out@[k].nanos >= entry.nanos,
                decreases out@.len() - at,
            {
                at = at + 1;
            }
            let copy: HostOpStats = HostOpStats {
                name: entry.name.clone(),
                count: entry.count,
                nanos: entry.nanos,
            };
            let ghost before = stats_views(out@);
            out.insert(at, copy);
            proof {
                assert(stats_views(out@) =~= before.insert(at as int, copy@));
                vstd::seq_lib::to_multiset_insert(before, at as int, copy@);
                assert(all.take(i as int + 1) =~= all.take(i as int).push(all[i as int]));
                vstd::seq_lib::to_multiset_build(all.take(i as int), all[i as int]);
                assert(copy@ == all[i as int]);
            }
            i = i + 1;
        }
        assert(all.take(all.len() as int) =~= all);
        Some(out)
    }
}

/// Hands a tensor back to the script.
pub fn return_tensor<T>(context: &mut TorchContext<T>, tensor: HostTensor<T>) -> (r: VmResult<
    Value,
>)
    requires
        old(context).wf(),
        old(context).next_tensor < i64::MAX,
    ensures
        final(context).wf(),
        r is Ok,
        r->Ok_0 == Value::Int(old(context)@.next_tensor),
        final(context)@ == with_tensor(old(context)@, tensor),
{
    return_int(context.insert_tensor(tensor))
}

/// The context with two more tensors and the pair of them.
pub open spec fn with_tensor_pair<T>(
    c: ContextView<T>,
    local: HostTensor<T>,
    global: HostTensor<T>,
) -> ContextView<T> {
    with_pair(
        with_tensor(with_tensor(c, local), global),
        FfcPair { local: c.next_tensor, global: (c.next_tensor + 1) as i64 },
    )
}

/// Hands two tensors back to the script, as a pair.
pub fn return_tensor_pair<T>(
    context: &mut TorchContext<T>,
    local: HostTensor<T>,
    global: HostTensor<T>,
) -> (r: VmResult<Value>)
    requires
        old(context).wf(),
        old(context).next_tensor < i64::MAX - 1,
        old(context).next_pair < i64::MAX,
    ensures
        final(context).wf(),
        r is Ok,
        r->Ok_0 == Value::Int(old(context)@.next_pair),
        final(context)@ == with_tensor_pair(old(context)@, local, global),
{
    let local: i64 = context.insert_tensor(local);
    let global: i64 = context.insert_tensor(global);
    return_int(context.insert_pair(FfcPair { local, global }))
}

/// A tensor that was added is found under its handle, which named nothing before, and every other
/// handle gives what it gave.
pub proof fn law_tensor_is_given_back<T>(c: ContextView<T>, tensor: HostTensor<T>, other: i64)
    requires
        c.wf(),
        c.next_tensor < i64::MAX,
    ensures
        with_tensor(c, tensor).wf(),
        !c.tensors.contains_key(c.next_tensor),
        tensor_outcome(with_tensor(c, tensor), c.next_tensor) == Ok::<HostTensor<T>, ErrorView>(
            tensor,
        ),
        other != c.next_tensor ==> tensor_outcome(with_tensor(c, tensor), other)
            == tensor_outcome(c, other),
{
}

/// A run begins the same way whether the run before it was finished or broken off, and the weights
/// and the tokenizer are there as they were.
pub proof fn law_runs_are_apart<T>(c: ContextView<T>, before: Seq<Seq<char>>, args: Seq<Seq<char>>)
    ensures
        begun(finished(c), args) == begun(c, args),
        begun(begun(c, before), args) == begun(c, args),
        begun(c, args).weights == c.weights,
        begun(c, args).weights_path == c.weights_path,
        begun(c, args).weights_kind == c.weights_kind,
        begun(c, args).tokenizer == c.tokenizer,
        begun(c, args).tensors == Map::<i64, HostTensor<T>>::empty(),
{
}

/// A run with a picture and a mask has their tensors as its two inputs, in this order, its own
/// arguments, and nothing published.
pub proof fn law_run_begins_with_inputs<T>(
    c: ContextView<T>,
    image: HostTensor<T>,
    mask: HostTensor<T>,
    args: Seq<Seq<char>>,
)
    ensures
        ({
            let after = ContextView {
                inputs: seq![1i64, 2i64],
                ..with_tensor(with_tensor(begun(c, args), image), mask)
            };
            &&& tensor_outcome(after, after.inputs[0]) == Ok::<HostTensor<T>, ErrorView>(image)
            &&& tensor_outcome(after, after.inputs[1]) == Ok::<HostTensor<T>, ErrorView>(mask)
            &&& after.args == args
            &&& after.output is None
            &&& after.text_output is None
            &&& after.generated_tokens is None
            &&& after.device == c.device
            &&& after.weights == c.weights
            &&& after.tokenizer == c.tokenizer
        }),
{
}

/// What a run ends with is the tensor whose handle it published last; a run that published none,
/// or one that is not there, has no result. Ending it forgets what was its own and keeps the
/// weights and the tokenizer.
pub proof fn law_run_ends_with_its_output<T>(c: ContextView<T>, handle: i64)
    ensures
        finish_outcome((ContextView { output: Some(handle), ..c })) matches Ok(tensor)
            ==> c.tensors.contains_key(handle) && tensor == c.tensors[handle],
        c.tensors.contains_key(handle) ==> finish_outcome(
            (ContextView { output: Some(handle), ..c }),
        ) is Ok,
        c.output is None ==> finish_outcome(c) is Err,
        finished(c).tensors.dom().len() == 0,
        finished(c).cache.dom().len() == 0,
        finished(c).inputs.len() == 0,
        finished(c).args.len() == 0,
        finished(c).output is None,
        finished(c).text_output is None,
        finished(c).generated_tokens is None,
        finished(c).decode_tokens is None,
        finished(c).weights == c.weights,
        finished(c).weights_path == c.weights_path,
        finished(c).tokenizer == c.tokenizer,
        finished(c).device == c.device,
{
}

/// The text that a run ends with is the one it published, with the counts that it set and the
/// times that were measured, each its own.
pub proof fn law_run_ends_with_its_text<T>(
    c: ContextView<T>,
    elapsed: Option<Duration>,
    decode_elapsed: Option<Duration>,
    r: ScriptTextOutput,
)
    requires
        is_text_output(c, elapsed, decode_elapsed, r),
    ensures
        c.text_output matches Some(text) ==> r.text@ == text,
        c.text_output is None ==> r.text@.len() == 0,
        r.generated_tokens == c.generated_tokens,
        r.decode_tokens == c.decode_tokens,
        r.elapsed == elapsed,
        r.decode_elapsed == decode_elapsed,
{
}

proof fn lemma_stats_index(s: Seq<StatsView>, name: Seq<char>, from: int)
    requires
        0 <= from <= s.len(),
    ensures
        from <= stats_index(s, name, from) <= s.len(),
        stats_index(s, name, from) < s.len() ==> s[stats_index(s, name, from)].name == name,
        forall|k: int| from <= k < stats_index(s, name, from) ==> (#[trigger] s[k]).name != name,
    decreases s.len() - from,
{
    if from < s.len() && s[from].name != name {
        lemma_stats_index(s, name, from + 1);
    }
}

/// A call that is recorded is counted once more under its name and adds its time there; the other
/// names keep their counts and times.
pub proof fn law_call_is_recorded(s: Seq<StatsView>, name: Seq<char>, nanos: u128, i: int)
    requires
        forall|k: int|
            0 <= k < s.len() ==> (#[trigger] s[k]).count < u64::MAX && s[k].nanos + nanos
                <= u128::MAX,
        0 <= i < s.len(),
        forall|k: int, l: int| 0 <= k < l < s.len() ==> s[k].name != s[l].name,
    ensures
        s[i].name == name ==> {
            &&& recorded(s, name, nanos).len() == s.len()
            &&& recorded(s, name, nanos)[i].name == name
            &&& recorded(s, name, nanos)[i].count == s[i].count + 1
            &&& recorded(s, name, nanos)[i].nanos == s[i].nanos + nanos
        },
        s[i].name != name ==> recorded(s, name, nanos)[i] == s[i],
        (forall|k: int| 0 <= k < s.len() ==> (#[trigger] s[k]).name != name) ==> {
            &&& recorded(s, name, nanos).len() == s.len() + 1
            &&& recorded(s, name, nanos).last().name == name
            &&& recorded(s, name, nanos).last().count == 1
            &&& recorded(s, name, nanos).last().nanos == nanos
        },
{
    lemma_stats_index(s, name, 0);
}

/// A pair of tensors that was added is found under its handle as that pair: the first as its local
/// part, the second as its global one.
pub proof fn law_tensor_pair_is_given_back<T>(
    c: ContextView<T>,
    local: HostTensor<T>,
    global: HostTensor<T>,
)
    requires
        c.wf(),
        c.next_tensor < i64::MAX - 1,
        c.next_pair < i64::MAX,
    ensures
        ({
            let after = with_tensor_pair(c, local, global);
            &&& !c.pairs.contains_key(c.next_pair)
            &&& pair_outcome(after, c.next_pair) matches Ok(pair)
            &&& tensor_outcome(after, pair.local) == Ok::<HostTensor<T>, ErrorView>(local)
            &&& tensor_outcome(after, pair.global) == Ok::<HostTensor<T>, ErrorView>(global)
        }),
{
}

} // verus!
