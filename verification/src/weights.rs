//! The weights of a model: which files hold them, how they are kept, and how scripts get them.
use vstd::hash_map::StringHashMap;
use vstd::prelude::*;
use vstd::string::*;

use crate::args;
use crate::context;
use crate::context::{ContextView, HostTensor, Kind, TorchContext};
use crate::number;
use crate::runtime;
use crate::text;
use crate::value::{host_error, return_int, ErrorView, Value, ValueView, VmError, VmResult};

verus! {

/// Whether elements of a type are floating-point numbers.
pub open spec fn is_float(kind: Kind) -> bool {
    ||| kind is Half
    ||| kind is Float
    ||| kind is Double
    ||| kind is BFloat16
    ||| kind is Float8e5m2
    ||| kind is Float8e4m3fn
    ||| kind is Float8e5m2fnuz
    ||| kind is Float8e4m3fnuz
}

/// Whether elements of a type are floating-point numbers.
pub fn is_float_kind(kind: Kind) -> (r: bool)
    ensures
        r == is_float(kind),
{
    matches!(
        kind,
        Kind::Half
            | Kind::Float
            | Kind::Double
            | Kind::BFloat16
            | Kind::Float8e5m2
            | Kind::Float8e4m3fn
            | Kind::Float8e5m2fnuz
            | Kind::Float8e4m3fnuz
    )
}

/// The type that a weight of type `kind` is turned into for a model that asks for `target`:
/// none where it stays as it is.
pub fn model_kind(kind: Kind, target: Option<Kind>) -> (r: Option<Kind>)
    ensures
        r == (if is_float(kind) {
            target
        } else {
            None
        }),
{
    if is_float_kind(kind) {
        target
    } else {
        None
    }
}

/// What the setting for the type of weights asks for: `None` keeps the type of each weight.
pub open spec fn weight_kind_setting(setting: Option<Seq<char>>) -> Result<
    Option<Kind>,
    Seq<char>,
> {
    match setting {
        None => Ok(Some(Kind::Float)),
        Some(s) => {
            let low = text::lower_text(s);
            if low == ""@ || low == "native"@ || low == "auto"@ {
                Ok(None)
            } else if low == "half"@ || low == "fp16"@ || low == "f16"@ {
                Ok(Some(Kind::Half))
            } else if low == "bf16"@ || low == "bfloat16"@ {
                Ok(Some(Kind::BFloat16))
            } else if low == "float"@ || low == "fp32"@ || low == "f32"@ {
                Ok(Some(Kind::Float))
            } else {
                Err(
                    "KOHARU_TORCH_WEIGHT_KIND must be native, half, bf16, or float, got '"@ + low
                        + "'"@,
                )
            }
        },
    }
}

/// The text of a setting.
pub open spec fn setting_text(setting: Option<&str>) -> Option<Seq<char>> {
    match setting {
        Some(s) => Some(s@),
        None => None,
    }
}

/// Reads the setting for the type of weights.
pub fn requested_weight_kind(setting: Option<&str>) -> (r: Result<Option<Kind>, String>)
    ensures
        ({
            let expected = weight_kind_setting(setting_text(setting));
            match r {
                Ok(kind) => expected == Ok::<Option<Kind>, Seq<char>>(kind),
                Err(message) => expected == Err::<Option<Kind>, Seq<char>>(message@),
            }
        }),
{
    let value: &str = match setting {
        None => {
            return Ok(Some(Kind::Float));
        },
        Some(value) => value,
    };
    let low: String = text::to_ascii_lowercase(value);
    let s: &str = low.as_str();
    if text::same_text(s, "") || text::same_text(s, "native") || text::same_text(s, "auto") {
        Ok(None)
    } else if text::same_text(s, "half") || text::same_text(s, "fp16") || text::same_text(
        s,
        "f16",
    ) {
        Ok(Some(Kind::Half))
    } else if text::same_text(s, "bf16") || text::same_text(s, "bfloat16") {
        Ok(Some(Kind::BFloat16))
    } else if text::same_text(s, "float") || text::same_text(s, "fp32") || text::same_text(
        s,
        "f32",
    ) {
        Ok(Some(Kind::Float))
    } else {
        Err(
            text::join3(
                "KOHARU_TORCH_WEIGHT_KIND must be native, half, bf16, or float, got '",
                s,
                "'",
            ),
        )
    }
}

/// The type that the setting asks for, or `default` where it asks for none or is not valid.
pub fn weight_kind_or(setting: Option<&str>, default: Kind) -> (r: Kind)
    ensures
        ({
            let expected = weight_kind_setting(setting_text(setting));
            r == (match expected {
                Ok(Some(kind)) => kind,
                _ => default,
            })
        }),
{
    match requested_weight_kind(setting) {
        Ok(Some(kind)) => kind,
        _ => default,
    }
}

/// Whether a file name has the extension of weight files, in any letter case.
pub open spec fn is_weight_file(name: Seq<char>) -> bool {
    match text::extension(name) {
        Some(extension) => text::lower_text(extension) == "safetensors"@,
        None => false,
    }
}

/// Whether a file name has the extension of weight files.
pub fn weight_file(name: &str) -> (r: bool)
    ensures
        r == is_weight_file(name@),
{
    match text::extension_of(name) {
        Some(extension) => {
            let low: String = text::to_ascii_lowercase(extension.as_str());
            text::same_text(low.as_str(), "safetensors")
        },
        None => false,
    }
}

/// The order of texts by their characters.
pub open spec fn text_le(a: Seq<char>, b: Seq<char>) -> bool
    decreases a.len(),
{
    if a.len() == 0 {
        true
    } else if b.len() == 0 {
        false
    } else if a[0] == b[0] {
        text_le(a.skip(1), b.skip(1))
    } else {
        a[0] < b[0]
    }
}

proof fn lemma_text_le_total(a: Seq<char>, b: Seq<char>)
    ensures
        text_le(a, b) || text_le(b, a),
    decreases a.len(),
{
    if a.len() > 0 && b.len() > 0 && a[0] == b[0] {
        lemma_text_le_total(a.skip(1), b.skip(1));
    }
}

proof fn lemma_text_le_transitive(a: Seq<char>, b: Seq<char>, c: Seq<char>)
    requires
        text_le(a, b),
        text_le(b, c),
    ensures
        text_le(a, c),
    decreases a.len(),
{
    if a.len() > 0 && b.len() > 0 && c.len() > 0 && a[0] == b[0] && b[0] == c[0] {
        lemma_text_le_transitive(a.skip(1), b.skip(1), c.skip(1));
    }
}

/// Whether `a` comes before `b` or is the same text.
fn text_before(a: &str, b: &str) -> (r: bool)
    ensures
        r == text_le(a@, b@),
{
    let x: Vec<char> = text::chars_of(a);
    let y: Vec<char> = text::chars_of(b);
    let mut i: usize = 0;
    assert(x@.skip(0) =~= x@);
    assert(y@.skip(0) =~= y@);
    while i < x.len() && i < y.len() && x[i] == y[i]
        invariant
            x@ == a@,
            y@ == b@,
            i <= x@.len(),
            i <= y@.len(),
            text_le(a@, b@) == text_le(x@.skip(i as int), y@.skip(i as int)),
        decreases x@.len() - i,
    {
        assert(x@.skip(i as int).skip(1) =~= x@.skip(i as int + 1));
        assert(y@.skip(i as int).skip(1) =~= y@.skip(i as int + 1));
        i = i + 1;
    }
    if i == x.len() {
        true
    } else if i == y.len() {
        false
    } else {
        x[i] < y[i]
    }
}

/// The weight files among the names in a directory, in order.
pub open spec fn is_weight_listing(names: Seq<Seq<char>>, files: Seq<Seq<char>>) -> bool {
    &&& files.to_multiset() == names.filter(|name: Seq<char>| is_weight_file(name)).to_multiset()
    &&& forall|i: int, j: int| 0 <= i <= j < files.len() ==> text_le(files[i], files[j])
}

/// The weight files among the names in a directory, in order.
pub fn weight_listing(names: &Vec<String>) -> (r: Vec<String>)
    ensures
        is_weight_listing(text::views(names@), text::views(r@)),
{
    let ghost models = text::views(names@);
    let ghost keep = |name: Seq<char>| is_weight_file(name);
    let mut out: Vec<String> = Vec::new();
    let mut i: usize = 0;
    assert(models.take(0) =~= Seq::<Seq<char>>::empty());
    assert(text::views(out@) =~= Seq::<Seq<char>>::empty());
    assert(models.take(0).filter(keep) =~= Seq::<Seq<char>>::empty()) by {
        reveal(Seq::filter);
    }
    while i < names.len()
        invariant
            i <= names@.len(),
            models == text::views(names@),
            keep == (|name: Seq<char>| is_weight_file(name)),
            text::views(out@).to_multiset() == models.take(i as int).filter(keep).to_multiset(),
            forall|j: int, k: int|
                0 <= j <= k < out@.len() ==> text_le(out@[j]@, out@[k]@),
        decreases names@.len() - i,
    {
        let name: &str = names[i].as_str();
        assert(models.take(i as int + 1) =~= models.take(i as int).push(models[i as int]));
        let ghost before = text::views(out@);
        proof {
            models.take(i as int).lemma_filter_push(models[i as int], keep);
        }
        if weight_file(name) {
            let mut at: usize = 0;
            while at < out.len() && text_before(out[at].as_str(), name)
                invariant
                    at <= out@.len(),
                    forall|k: int| 0 <= k < at ==> text_le(out@[k]@, name@),
                decreases out@.len() - at,
            {
                at = at + 1;
            }
            let ghost sorted = out@;
            let copy: String = name.to_owned();
            out.insert(at, copy);
            proof {
                assert(text::views(out@) =~= before.insert(at as int, name@));
                vstd::seq_lib::to_multiset_insert(before, at as int, name@);
                vstd::seq_lib::to_multiset_build(
                    models.take(i as int).filter(keep),
                    models[i as int],
                );
                assert forall|j: int, k: int| 0 <= j <= k < out@.len() implies text_le(
                    out@[j]@,
                    out@[k]@,
                ) by {
                    if at < sorted.len() {
                        lemma_text_le_total(sorted[at as int]@, name@);
                    }
                    lemma_text_le_total(name@, name@);
                    if j == at && k > at {
                        assert(out@[k]@ == sorted[k - 1]@);
                        assert(text_le(sorted[at as int]@, sorted[k - 1]@));
                        lemma_text_le_transitive(name@, sorted[at as int]@, sorted[k - 1]@);
                    } else if j < at && k == at {
                        assert(text_le(sorted[j]@, name@));
                    } else if j < at && k > at {
                        assert(text_le(sorted[j]@, sorted[k - 1]@));
                    } else if j > at {
                        assert(text_le(sorted[j - 1]@, sorted[k - 1]@));
                    } else if k < at {
                        assert(text_le(sorted[j]@, sorted[k]@));
                    }
                }
            }
        }
        i = i + 1;
    }
    assert(models.take(models.len() as int) =~= models);
    out
}

/// The message on a directory without weight files.
pub open spec fn no_weight_files(path: Seq<char>) -> ErrorView {
    ErrorView::Host(path + " contains no safetensors files"@)
}

/// The files of a directory that the weights are read from, in order.
pub fn weight_files(path: &str, names: &Vec<String>) -> (r: VmResult<Vec<String>>)
    ensures
        match r {
            Ok(files) => {
                &&& files@.len() > 0
                &&& is_weight_listing(text::views(names@), text::views(files@))
            },
            Err(e) => {
                &&& forall|i: int|
                    0 <= i < names@.len() ==> !is_weight_file(#[trigger] names@[i]@)
                &&& e@ == no_weight_files(path@)
            },
        },
{
    let files: Vec<String> = weight_listing(names);
    if files.len() == 0 {
        proof {
            let models = text::views(names@);
            let kept = models.filter(|name: Seq<char>| is_weight_file(name));
            assert(text::views(files@) =~= Seq::<Seq<char>>::empty());
            vstd::seq_lib::to_multiset_len(kept);
            vstd::seq_lib::to_multiset_len(text::views(files@));
            assert(kept.len() == 0);
            assert forall|i: int| 0 <= i < names@.len() implies !is_weight_file(
                #[trigger] names@[i]@,
            ) by {
                if is_weight_file(names@[i]@) {
                    assert(models[i] == names@[i]@);
                    models.lemma_filter_contains(|name: Seq<char>| is_weight_file(name), i);
                }
            }
        }
        return Err(host_error(text::join2(path, " contains no safetensors files").as_str()));
    }
    Ok(files)
}

/// The message on a file that cannot be read.
pub open spec fn unreadable_file(path: Seq<char>, reason: Seq<char>) -> ErrorView {
    ErrorView::Host("failed to read "@ + path + ": "@ + reason)
}

/// The error on a file that cannot be read.
pub fn read_error(path: &str, reason: &str) -> (r: VmError)
    ensures
        r@ == unreadable_file(path@, reason@),
{
    let mut message: String = text::join3("failed to read ", path, ": ");
    message.append(reason);
    host_error(message.as_str())
}

/// The first place of a name in a list, or the end.
pub open spec fn name_index(names: Seq<Seq<char>>, name: Seq<char>, from: int) -> int
    decreases names.len() - from,
{
    if from >= names.len() {
        names.len() as int
    } else if names[from] == name {
        from
    } else {
        name_index(names, name, from + 1)
    }
}

/// The place of a tensor in a file, by the names of the file's tensors; the first of a name counts.
pub fn find_tensor(names: &Vec<String>, name: &str, path: &str) -> (r: VmResult<usize>)
    ensures
        ({
            let place = name_index(text::views(names@), name@, 0);
            match r {
                Ok(i) => i == place && place < names@.len(),
                Err(e) => place >= names@.len() && e@ == ErrorView::Host(
                    "missing tensor '"@ + name@ + "' in "@ + path@,
                ),
            }
        }),
{
    let mut i: usize = 0;
    while i < names.len()
        invariant
            i <= names@.len(),
            name_index(text::views(names@), name@, 0) == name_index(
                text::views(names@),
                name@,
                i as int,
            ),
        decreases names@.len() - i,
    {
        if text::same_text(names[i].as_str(), name) {
            return Ok(i);
        }
        i = i + 1;
    }
    let mut message: String = text::join3("missing tensor '", name, "' in ");
    message.append(path);
    Err(host_error(message.as_str()))
}

/// Whether comparing these two texts as paths can give this answer. Which texts name one path
/// depends on the platform.
pub uninterp spec fn may_be_same_path(a: Seq<char>, b: Seq<char>, r: bool) -> bool;

/// `std::path::Path::eq`: whether two texts name the same path.
///
/// Claimed: the answer is one that comparing these two texts can give, and a text names the same
/// path as itself. Which other texts do is left unsaid, for it depends on the platform.
#[verifier::external_body]
pub(crate) fn same_path(a: &str, b: &str) -> (r: bool)
    ensures
        may_be_same_path(a@, b@, r),
        a@ == b@ ==> r,
{
    std::path::Path::new(a) == std::path::Path::new(b)
}

/// How the weights of a path get there.
pub enum LoadPlan {
    /// They are there; holds what the script gets.
    Loaded(Value),
    /// They have to be read from the path, as this type.
    Read { path: String, kind: Option<Kind> },
}

/// What a model with `count` weights is answered with.
pub open spec fn count_outcome(count: nat) -> Result<ValueView, ErrorView> {
    if count <= i64::MAX {
        Ok(ValueView::Int(count as i64))
    } else {
        Err(ErrorView::Host("weight count exceeds RustScript integer range"@))
    }
}

/// The context before the weights of another path or type are read.
pub open spec fn before_load<T>(c: ContextView<T>) -> ContextView<T> {
    ContextView { weight_handles: Map::empty(), conv1d_step_weights: Map::empty(), ..c }
}

/// What asking for the weights of a path does, where `same` says whether the weights that are
/// there came from it.
pub open spec fn load_step<T>(
    c: ContextView<T>,
    path: Seq<char>,
    same: bool,
    kind: Result<Option<Kind>, Seq<char>>,
    after: ContextView<T>,
    r: VmResult<LoadPlan>,
) -> bool {
    match kind {
        Err(message) => {
            &&& r is Err
            &&& r->Err_0@ == ErrorView::Host(message)
            &&& after == c
        },
        Ok(kind) => if !same || c.weights_kind != kind {
            &&& r matches Ok(LoadPlan::Read { path: p, kind: k })
            &&& p@ == path
            &&& k == kind
            &&& after == before_load(c)
        } else {
            &&& after == c
            &&& match r {
                Ok(LoadPlan::Loaded(v)) => count_outcome(c.weights.len()) == Ok::<
                    ValueView,
                    ErrorView,
                >(v@),
                Ok(LoadPlan::Read { .. }) => false,
                Err(e) => count_outcome(c.weights.len()) == Err::<ValueView, ErrorView>(e@),
            }
        },
    }
}

/// Whether comparing a path that is known, if there is one, with another can give this answer: the
/// same text is always the same path.
pub open spec fn known_path(known: Option<Seq<char>>, path: Seq<char>, same: bool) -> bool {
    match known {
        None => !same,
        Some(known) => may_be_same_path(known, path, same) && (same || known != path),
    }
}

/// What asking for the weights of a path does: the weights that are there are the answer where
/// they came from it.
pub open spec fn load_request<T>(
    c: ContextView<T>,
    path: Seq<char>,
    kind: Result<Option<Kind>, Seq<char>>,
    after: ContextView<T>,
    r: VmResult<LoadPlan>,
) -> bool {
    ||| known_path(c.weights_path, path, true) && load_step(c, path, true, kind, after, r)
    ||| known_path(c.weights_path, path, false) && load_step(c, path, false, kind, after, r)
}

/// A request for a type, or the message on one that is not valid.
pub open spec fn kind_request(kind: Result<Option<Kind>, String>) -> Result<
    Option<Kind>,
    Seq<char>,
> {
    match kind {
        Ok(kind) => Ok(kind),
        Err(message) => Err(message@),
    }
}

fn weight_count<T>(context: &TorchContext<T>) -> (r: VmResult<Value>)
    ensures
        runtime::outcome(r) == count_outcome(context@.weights.len()),
{
    let count: usize = context.weights.len();
    if count as u64 <= i64::MAX as u64 {
        return_int(count as i64)
    } else {
        Err(host_error("weight count exceeds RustScript integer range"))
    }
}

/// Asks for the weights of a path, where `same` says whether the weights that are there came
/// from it.
pub fn weights_load_with<T>(
    context: &mut TorchContext<T>,
    path: &str,
    same: bool,
    kind: Result<Option<Kind>, String>,
) -> (r: VmResult<LoadPlan>)
    requires
        old(context).wf(),
    ensures
        final(context).wf(),
        load_step(
            old(context)@,
            path@,
            same,
            kind_request(kind),
            final(context)@,
            r,
        ),
{
    let kind: Option<Kind> = match kind {
        Ok(kind) => kind,
        Err(message) => {
            return Err(host_error(message.as_str()));
        },
    };
    if !same || context.weights_kind != kind {
        context.weight_handles.clear();
        context.conv1d_step_weights.clear();
        assert(context@ =~= before_load(old(context)@));
        return Ok(LoadPlan::Read { path: path.to_owned(), kind });
    }
    match weight_count(context) {
        Ok(v) => Ok(LoadPlan::Loaded(v)),
        Err(e) => Err(e),
    }
}

/// Asks for the weights of the path that the script gives; `setting` is the setting for their
/// type.
///
/// Weights that came from the same path as the same type are not read again.
pub fn weights_load<T>(context: &mut TorchContext<T>, args: &[Value], setting: Option<&str>) -> (r:
    VmResult<LoadPlan>)
    requires
        old(context).wf(),
    ensures
        final(context).wf(),
        ({
            let c = old(context)@;
            match args::string_at(c.active_host_op, args@, 0, "path"@) {
                Err(e) => r is Err && r->Err_0@ == e && final(context)@ == c,
                Ok(path) => load_request(
                    c,
                    path,
                    weight_kind_setting(setting_text(setting)),
                    final(context)@,
                    r,
                ),
            }
        }),
{
    let path: &str = match args::string_arg(&context.active_host_op, args, 0, "path") {
        Ok(path) => path,
        Err(e) => {
            return Err(e);
        },
    };
    let same: bool = match &context.weights_path {
        Some(known) => same_path(known.as_str(), path),
        None => false,
    };
    let kind: Result<Option<Kind>, String> = requested_weight_kind(setting);
    assert(kind_request(kind) == weight_kind_setting(setting_text(setting)));
    weights_load_with(context, path, same, kind)
}

/// The weights of a list of named tensors; of two with one name, the later counts.
pub open spec fn named_weights<T>(tensors: Seq<(String, HostTensor<T>)>) -> Map<
    Seq<char>,
    HostTensor<T>,
>
    decreases tensors.len(),
{
    if tensors.len() == 0 {
        Map::empty()
    } else {
        let last = tensors.last();
        named_weights(tensors.drop_last()).insert(last.0@, last.1)
    }
}

/// Keeps the weights that were read from a path.
pub fn weights_store<T>(
    context: &mut TorchContext<T>,
    path: &str,
    kind: Option<Kind>,
    tensors: Vec<(String, HostTensor<T>)>,
) -> (r: VmResult<Value>)
    requires
        old(context).wf(),
    ensures
        final(context).wf(),
        final(context)@ == (ContextView {
            weights: named_weights(tensors@),
            weights_path: Some(path@),
            weights_kind: kind,
            ..old(context)@
        }),
        runtime::outcome(r) == count_outcome(named_weights(tensors@).len()),
{
    let ghost all = tensors@;
    let mut weights: StringHashMap<HostTensor<T>> = StringHashMap::new();
    let mut rest: Vec<(String, HostTensor<T>)> = tensors;
    let ghost mut done: Seq<(String, HostTensor<T>)> = Seq::empty();
    assert(done + rest@ =~= all);
    while rest.len() > 0
        invariant
            done + rest@ == all,
            weights@ == named_weights(done),
        decreases rest@.len(),
    {
        let ghost next = rest@[0];
        let (name, tensor) = rest.remove(0);
        weights.insert(name, tensor);
        proof {
            let longer = done.push(next);
            assert(longer.drop_last() =~= done);
            assert(longer + rest@ =~= all);
            done = longer;
        }
    }
    assert(done =~= all);
    context.weights = weights;
    context.weights_path = Some(path.to_owned());
    context.weights_kind = kind;
    weight_count(context)
}

/// How a weight is had: it is stored under its name, or made of stored ones, one after the other.
pub enum WeightSource {
    Stored,
    Fused(Vec<String>),
}

/// The model of a [`WeightSource`].
pub enum SourceView {
    Stored,
    Fused(Seq<Seq<char>>),
}

impl View for WeightSource {
    type V = SourceView;

    open spec fn view(&self) -> SourceView {
        match self {
            WeightSource::Stored => SourceView::Stored,
            WeightSource::Fused(parts) => SourceView::Fused(text::views(parts@)),
        }
    }
}

/// The message on a weight that is not there.
pub open spec fn missing_weight(name: Seq<char>) -> ErrorView {
    ErrorView::Host("missing weight '"@ + name + "'"@)
}

/// The parts of a fused weight, or the message on the first that is not there.
pub open spec fn fused_parts<T>(c: ContextView<T>, parts: Seq<Seq<char>>, from: int) -> Result<
    SourceView,
    ErrorView,
>
    decreases parts.len() - from,
{
    if from < 0 || from >= parts.len() {
        Ok(SourceView::Fused(parts))
    } else if !c.weights.contains_key(parts[from]) {
        Err(missing_weight(parts[from]))
    } else {
        fused_parts(c, parts, from + 1)
    }
}

/// The parts of the fused query, key and value projection of a layer.
pub open spec fn qkv_parts(prefix: Seq<char>) -> Seq<Seq<char>> {
    seq![
        prefix + ".self_attn.q_proj.weight"@,
        prefix + ".self_attn.k_proj.weight"@,
        prefix + ".self_attn.v_proj.weight"@,
    ]
}

/// The parts of the fused gate and up projection of a layer.
pub open spec fn gate_parts(prefix: Seq<char>) -> Seq<Seq<char>> {
    seq![prefix + ".feed_forward.w1.weight"@, prefix + ".feed_forward.w3.weight"@]
}

/// The text before a suffix.
pub open spec fn stem(name: Seq<char>, suffix: Seq<char>) -> Seq<char> {
    name.take(name.len() - suffix.len())
}

/// How a weight is had, or why it is not.
pub open spec fn source_outcome<T>(c: ContextView<T>, name: Seq<char>) -> Result<
    SourceView,
    ErrorView,
> {
    let qkv = ".self_attn.qkv_proj.weight"@;
    let gate = ".feed_forward.w1_w3.weight"@;
    if c.weights.contains_key(name) {
        Ok(SourceView::Stored)
    } else if text::has_suffix(name, qkv) {
        fused_parts(c, qkv_parts(stem(name, qkv)), 0)
    } else if text::has_suffix(name, gate) {
        fused_parts(c, gate_parts(stem(name, gate)), 0)
    } else {
        Err(missing_weight(name))
    }
}

fn check_parts<T>(context: &TorchContext<T>, parts: Vec<String>) -> (r: VmResult<WeightSource>)
    ensures
        match r {
            Ok(source) => fused_parts(context@, text::views(parts@), 0) == Ok::<
                SourceView,
                ErrorView,
            >(source@),
            Err(e) => fused_parts(context@, text::views(parts@), 0) == Err::<SourceView, ErrorView>(
                e@,
            ),
        },
{
    let ghost models = text::views(parts@);
    let mut i: usize = 0;
    while i < parts.len()
        invariant
            i <= parts@.len(),
            models == text::views(parts@),
            fused_parts(context@, models, 0) == fused_parts(context@, models, i as int),
        decreases parts@.len() - i,
    {
        assert(models[i as int] == parts@[i as int]@);
        match context.weight(parts[i].as_str()) {
            Ok(_) => {},
            Err(e) => {
                return Err(e);
            },
        }
        i = i + 1;
    }
    Ok(WeightSource::Fused(parts))
}

/// How a weight is had: stored under its name, or fused of the projections of its layer.
pub fn weight_source<T>(context: &TorchContext<T>, name: &str) -> (r: VmResult<WeightSource>)
    ensures
        match r {
            Ok(source) => source_outcome(context@, name@) == Ok::<SourceView, ErrorView>(source@),
            Err(e) => source_outcome(context@, name@) == Err::<SourceView, ErrorView>(e@),
        },
{
    if context.weights.contains_key(name) {
        return Ok(WeightSource::Stored);
    }
    match text::strip_suffix(name, ".self_attn.qkv_proj.weight") {
        Some(prefix) => {
            let mut parts: Vec<String> = Vec::new();
            parts.push(text::join2(prefix.as_str(), ".self_attn.q_proj.weight"));
            parts.push(text::join2(prefix.as_str(), ".self_attn.k_proj.weight"));
            parts.push(text::join2(prefix.as_str(), ".self_attn.v_proj.weight"));
            assert(text::views(parts@) =~= qkv_parts(prefix@));
            return check_parts(context, parts);
        },
        None => {},
    }
    match text::strip_suffix(name, ".feed_forward.w1_w3.weight") {
        Some(prefix) => {
            let mut parts: Vec<String> = Vec::new();
            parts.push(text::join2(prefix.as_str(), ".feed_forward.w1.weight"));
            parts.push(text::join2(prefix.as_str(), ".feed_forward.w3.weight"));
            assert(text::views(parts@) =~= gate_parts(prefix@));
            return check_parts(context, parts);
        },
        None => {},
    }
    Err(host_error(text::join3("missing weight '", name, "'").as_str()))
}

/// What asking for a weight comes to.
pub enum WeightStep {
    /// The handle that the script gets.
    Done(Value),
    /// The weight `source` has to be shared and returned under `name`.
    Take { name: String, source: String },
    /// The weights `parts` have to be joined along their first dimension, kept as the weight
    /// `name`, and returned under it.
    Fuse { name: String, parts: Vec<String> },
}

/// The model of a [`WeightStep`].
pub enum StepView {
    Done(ValueView),
    Take(Seq<char>, Seq<char>),
    Fuse(Seq<char>, Seq<Seq<char>>),
}

impl View for WeightStep {
    type V = StepView;

    open spec fn view(&self) -> StepView {
        match self {
            WeightStep::Done(v) => StepView::Done(v@),
            WeightStep::Take { name, source } => StepView::Take(name@, source@),
            WeightStep::Fuse { name, parts } => StepView::Fuse(name@, text::views(parts@)),
        }
    }
}

/// The result of asking for a weight, as a model.
pub open spec fn step_result(r: VmResult<WeightStep>) -> Result<StepView, ErrorView> {
    match r {
        Ok(step) => Ok(step@),
        Err(e) => Err(e@),
    }
}

/// The handle that a weight was returned under, where its tensor is still there.
pub open spec fn cached<T>(c: ContextView<T>, name: Seq<char>) -> Option<i64> {
    if c.weight_handles.contains_key(name) && c.tensors.contains_key(c.weight_handles[name]) {
        Some(c.weight_handles[name])
    } else {
        None
    }
}

/// The handle that a weight was returned under, where its tensor is still there.
pub fn cached_weight_handle<T>(context: &TorchContext<T>, name: &str) -> (r: Option<i64>)
    ensures
        r == cached(context@, name@),
{
    match context.weight_handles.get(name) {
        Some(handle) => if context.tensors.contains(handle) {
            Some(handle)
        } else {
            None
        },
        None => None,
    }
}

/// What a weight that has to be had comes to.
pub open spec fn build_step(name: Seq<char>, source: SourceView) -> StepView {
    match source {
        SourceView::Stored => StepView::Take(name, name),
        SourceView::Fused(parts) => StepView::Fuse(name, parts),
    }
}

/// What asking for a weight gives.
pub open spec fn get_outcome<T>(c: ContextView<T>, name: Seq<char>) -> Result<
    StepView,
    ErrorView,
> {
    match cached(c, name) {
        Some(handle) => Ok(StepView::Done(ValueView::Int(handle))),
        None => match source_outcome(c, name) {
            Ok(source) => Ok(build_step(name, source)),
            Err(e) => Err(e),
        },
    }
}

fn build(name: &str, source: WeightSource) -> (r: WeightStep)
    ensures
        r@ == build_step(name@, source@),
{
    match source {
        WeightSource::Stored => WeightStep::Take { name: name.to_owned(), source: name.to_owned() },
        WeightSource::Fused(parts) => WeightStep::Fuse { name: name.to_owned(), parts },
    }
}

fn get_named<T>(context: &TorchContext<T>, name: &str) -> (r: VmResult<WeightStep>)
    ensures
        step_result(r) == get_outcome(context@, name@),
{
    match cached_weight_handle(context, name) {
        Some(handle) => Ok(WeightStep::Done(Value::Int(handle))),
        None => match weight_source(context, name) {
            Ok(source) => Ok(build(name, source)),
            Err(e) => Err(e),
        },
    }
}

/// Asks for a weight by name.
pub fn weights_get<T>(context: &TorchContext<T>, args: &[Value]) -> (r: VmResult<WeightStep>)
    ensures
        step_result(r) == match args::string_at(
            context@.active_host_op,
            args@,
            0,
            "name"@,
        ) {
            Err(e) => Err::<StepView, ErrorView>(e),
            Ok(name) => get_outcome(context@, name),
        },
{
    match args::string_arg(&context.active_host_op, args, 0, "name") {
        Err(e) => Err(e),
        Ok(name) => get_named(context, name),
    }
}

/// What asking for the weight of a numbered layer gives.
pub open spec fn indexed_outcome<T>(c: ContextView<T>, args: Seq<Value>) -> Result<
    StepView,
    ErrorView,
> {
    let op = c.active_host_op;
    match args::string_at(op, args, 0, "prefix"@) {
        Err(e) => Err(e),
        Ok(prefix) => match args::int_at(op, args, 1, "index"@) {
            Err(e) => Err(e),
            Ok(index) => match args::string_at(op, args, 2, "suffix"@) {
                Err(e) => Err(e),
                Ok(suffix) => get_outcome(c, prefix + text::decimal(index as int) + suffix),
            },
        },
    }
}

/// Asks for the weight of a numbered layer.
pub fn weights_get_indexed<T>(
    context: &TorchContext<T>,
    args: &[Value],
) -> (r: VmResult<WeightStep>)
    ensures
        step_result(r) == indexed_outcome(context@, args@),
{
    let op: &Option<String> = &context.active_host_op;
    match args::string_arg(op, args, 0, "prefix") {
        Err(e) => Err(e),
        Ok(prefix) => match args::int_arg(op, args, 1, "index") {
            Err(e) => Err(e),
            Ok(index) => match args::string_arg(op, args, 2, "suffix") {
                Err(e) => Err(e),
                Ok(suffix) => {
                    let name: String = text::join3(
                        prefix,
                        text::decimal_text(index as i128).as_str(),
                        suffix,
                    );
                    get_named(context, name.as_str())
                },
            },
        },
    }
}

/// The context with a handle noted for a weight.
pub open spec fn with_weight_handle<T>(
    c: ContextView<T>,
    name: Seq<char>,
    handle: i64,
) -> ContextView<T> {
    ContextView { weight_handles: c.weight_handles.insert(name, handle), ..c }
}

/// What asking for a weight with a fallback gives, and the context that it leaves.
pub open spec fn get_or_outcome<T>(c: ContextView<T>, name: Seq<char>, fallback: Seq<char>) -> (
    ContextView<T>,
    Result<StepView, ErrorView>,
) {
    let cache_name = if c.weights.contains_key(name) {
        name
    } else {
        fallback
    };
    match cached(c, name) {
        Some(handle) => (c, Ok(StepView::Done(ValueView::Int(handle)))),
        None => match cached(c, cache_name) {
            Some(handle) => (
                if cache_name != name {
                    with_weight_handle(c, name, handle)
                } else {
                    c
                },
                Ok(StepView::Done(ValueView::Int(handle))),
            ),
            None => (
                c,
                match source_outcome(c, name) {
                    Ok(source) => Ok(build_step(name, source)),
                    Err(_) => if c.weights.contains_key(fallback) {
                        Ok(StepView::Take(name, fallback))
                    } else {
                        Err(missing_weight(fallback))
                    },
                },
            ),
        },
    }
}

fn get_named_or<T>(context: &mut TorchContext<T>, name: &str, fallback: &str) -> (r: VmResult<
    WeightStep,
>)
    requires
        old(context).wf(),
    ensures
        final(context).wf(),
        (final(context)@, step_result(r)) == get_or_outcome(old(context)@, name@, fallback@),
{
    match cached_weight_handle(context, name) {
        Some(handle) => {
            return Ok(WeightStep::Done(Value::Int(handle)));
        },
        None => {},
    }
    let cache_name: &str = if context.weights.contains_key(name) {
        name
    } else {
        fallback
    };
    match cached_weight_handle(context, cache_name) {
        Some(handle) => {
            if !text::same_text(cache_name, name) {
                context.weight_handles.insert(name, handle);
                assert(context@ =~= with_weight_handle(old(context)@, name@, handle));
            }
            return Ok(WeightStep::Done(Value::Int(handle)));
        },
        None => {},
    }
    match weight_source(context, name) {
        Ok(source) => Ok(build(name, source)),
        Err(_) => match context.weight(fallback) {
            Ok(_) => Ok(
                WeightStep::Take { name: name.to_owned(), source: fallback.to_owned() },
            ),
            Err(e) => Err(e),
        },
    }
}

/// Asks for a weight by name, with another to fall back on.
pub fn weights_get_or<T>(context: &mut TorchContext<T>, args: &[Value]) -> (r: VmResult<WeightStep>)
    requires
        old(context).wf(),
    ensures
        final(context).wf(),
        ({
            let c = old(context)@;
            let op = c.active_host_op;
            (final(context)@, step_result(r)) == match args::string_at(op, args@, 0, "name"@) {
                Err(e) => (c, Err::<StepView, ErrorView>(e)),
                Ok(name) => match args::string_at(op, args@, 1, "fallback"@) {
                    Err(e) => (c, Err::<StepView, ErrorView>(e)),
                    Ok(fallback) => get_or_outcome(c, name, fallback),
                },
            }
        }),
{
    match args::string_arg(&context.active_host_op, args, 0, "name") {
        Err(e) => Err(e),
        Ok(name) => match args::string_arg(&context.active_host_op, args, 1, "fallback") {
            Err(e) => Err(e),
            Ok(fallback) => get_named_or(context, name, fallback),
        },
    }
}

/// The context with one more handle for a weight that is not there.
pub open spec fn with_missing<T>(c: ContextView<T>, name: Seq<char>) -> ContextView<T> {
    ContextView {
        missing_weight_handles: c.missing_weight_handles.insert(c.next_missing_weight, name),
        next_missing_weight: (c.next_missing_weight - 1) as i64,
        ..c
    }
}

/// What asking for a weight that may be missing gives, and the context that it leaves.
pub open spec fn optional_outcome<T>(c: ContextView<T>, name: Seq<char>) -> (
    ContextView<T>,
    Result<StepView, ErrorView>,
) {
    match get_outcome(c, name) {
        Ok(step) => (c, Ok(step)),
        Err(_) => (
            with_missing(c, name),
            Ok(StepView::Done(ValueView::Int(c.next_missing_weight))),
        ),
    }
}

/// Asks for a weight that may be missing; one that is gets a handle under which no tensor stands.
pub fn weights_get_optional<T>(context: &mut TorchContext<T>, args: &[Value]) -> (r: VmResult<
    WeightStep,
>)
    requires
        old(context).wf(),
        old(context).next_missing_weight > i64::MIN,
    ensures
        final(context).wf(),
        ({
            let c = old(context)@;
            (final(context)@, step_result(r)) == match args::string_at(
                c.active_host_op,
                args@,
                0,
                "name"@,
            ) {
                Err(e) => (c, Err::<StepView, ErrorView>(e)),
                Ok(name) => optional_outcome(c, name),
            }
        }),
{
    let name: &str = match args::string_arg(&context.active_host_op, args, 0, "name") {
        Err(e) => {
            return Err(e);
        },
        Ok(name) => name,
    };
    match get_named(context, name) {
        Ok(step) => Ok(step),
        Err(_) => {
            let handle: i64 = context.next_missing_weight;
            context.next_missing_weight = handle - 1;
            context.missing_weight_handles.insert(handle, name.to_owned());
            assert(context@ =~= with_missing(old(context)@, name@));
            Ok(WeightStep::Done(Value::Int(handle)))
        },
    }
}

/// Keeps a weight that was made of others.
pub fn keep_fused_weight<T>(context: &mut TorchContext<T>, name: &str, tensor: HostTensor<T>)
    requires
        old(context).wf(),
    ensures
        final(context).wf(),
        final(context)@ == (ContextView {
            weights: old(context)@.weights.insert(name@, tensor),
            ..old(context)@
        }),
{
    context.weights.insert(name.to_owned(), tensor);
}

/// Hands a weight back to the script and notes its handle.
pub fn return_weight_tensor<T>(
    context: &mut TorchContext<T>,
    name: &str,
    tensor: HostTensor<T>,
) -> (r: VmResult<Value>)
    requires
        old(context).wf(),
        old(context).next_tensor < i64::MAX,
    ensures
        final(context).wf(),
        runtime::outcome(r) == Ok::<ValueView, ErrorView>(
            ValueView::Int(old(context)@.next_tensor),
        ),
        final(context)@ == with_weight_handle(
            context::with_tensor(old(context)@, tensor),
            name@,
            old(context)@.next_tensor,
        ),
{
    let handle: i64 = context.insert_tensor(tensor);
    context.weight_handles.insert(name, handle);
    return_int(handle)
}

/// A weight that was returned once is returned under the same handle again.
pub proof fn law_weight_keeps_its_handle<T>(
    c: ContextView<T>,
    name: Seq<char>,
    tensor: HostTensor<T>,
)
    ensures
        ({
            let after = with_weight_handle(
                context::with_tensor(c, tensor),
                name,
                c.next_tensor,
            );
            &&& get_outcome(after, name) == Ok::<StepView, ErrorView>(
                StepView::Done(ValueView::Int(c.next_tensor)),
            )
            &&& optional_outcome(after, name).0 == after
        }),
{
}

/// The handle of a missing weight is negative, names no tensor before or after, and any host
/// function that looks it up is told which weight is missing.
pub proof fn law_missing_weight<T>(c: ContextView<T>, name: Seq<char>)
    requires
        c.wf(),
        c.next_missing_weight > i64::MIN,
    ensures
        c.next_missing_weight < 0,
        !c.tensors.contains_key(c.next_missing_weight),
        context::tensor_outcome(with_missing(c, name), c.next_missing_weight) == Err::<
            HostTensor<T>,
            ErrorView,
        >(ErrorView::Host("missing optional weight '"@ + name + "'"@)),
{
}

/// A fused weight that was kept is stored from then on.
pub proof fn law_fused_weight_is_stored<T>(
    c: ContextView<T>,
    name: Seq<char>,
    tensor: HostTensor<T>,
)
    ensures
        source_outcome(
            (ContextView { weights: c.weights.insert(name, tensor), ..c }),
            name,
        ) == Ok::<SourceView, ErrorView>(SourceView::Stored),
{
}

/// Weights that were read from a path are not read from it again as the same type, also not by a
/// later run: the request is answered with their number and changes nothing.
pub proof fn law_weights_are_read_once<T>(
    c: ContextView<T>,
    path: Seq<char>,
    kind: Option<Kind>,
    weights: Map<Seq<char>, HostTensor<T>>,
    args: Seq<Seq<char>>,
    after: ContextView<T>,
    r: VmResult<LoadPlan>,
)
    requires
        ({
            let stored = ContextView {
                weights,
                weights_path: Some(path),
                weights_kind: kind,
                ..c
            };
            load_request(context::begun(stored, args), path, Ok(kind), after, r)
        }),
    ensures
        !(r matches Ok(LoadPlan::Read { .. })),
        after.weights == weights,
        match r {
            Ok(LoadPlan::Loaded(v)) => count_outcome(weights.len()) == Ok::<ValueView, ErrorView>(
                v@,
            ),
            Ok(_) => false,
            Err(e) => count_outcome(weights.len()) == Err::<ValueView, ErrorView>(e@),
        },
{
}

/// Weights of a path that cannot be taken for the one that is known are read, whatever is there.
pub proof fn law_other_weights_are_read<T>(
    c: ContextView<T>,
    path: Seq<char>,
    kind: Option<Kind>,
    after: ContextView<T>,
    r: VmResult<LoadPlan>,
)
    requires
        load_request(c, path, Ok(kind), after, r),
        c.weights_path matches Some(known) ==> !may_be_same_path(known, path, true),
    ensures
        r matches Ok(LoadPlan::Read { path: p, kind: k }) && p@ == path && k == kind,
{
}

/// A request that is refused, or whose weights then cannot be read, leaves the weights that are
/// there with their path and type: a request for that path and type is answered with them.
pub proof fn law_failed_load_keeps_weights<T>(
    c: ContextView<T>,
    path: Seq<char>,
    kind: Result<Option<Kind>, Seq<char>>,
    between: ContextView<T>,
    refused: VmResult<LoadPlan>,
    after: ContextView<T>,
    r: VmResult<LoadPlan>,
)
    requires
        load_request(c, path, kind, between, refused),
        c.weights_path is Some,
        load_request(between, c.weights_path->0, Ok(c.weights_kind), after, r),
    ensures
        between.weights == c.weights,
        between.weights_path == c.weights_path,
        between.weights_kind == c.weights_kind,
        !(r matches Ok(LoadPlan::Read { .. })),
        after.weights == c.weights,
{
}

proof fn lemma_fused_parts<T>(c: ContextView<T>, parts: Seq<Seq<char>>, from: int)
    requires
        0 <= from <= parts.len(),
    ensures
        fused_parts(c, parts, from) is Ok <==> forall|i: int|
            from <= i < parts.len() ==> c.weights.contains_key(#[trigger] parts[i]),
        fused_parts(c, parts, from) matches Ok(s) ==> s == SourceView::Fused(parts),
    decreases parts.len() - from,
{
    if from < parts.len() {
        lemma_fused_parts(c, parts, from + 1);
    }
}

/// A weight that was loaded and not yet handed out is taken under its own name; one that has a
/// handle is handed out by it; one that is neither there nor made of others is refused.
pub proof fn law_weight_by_name<T>(c: ContextView<T>, name: Seq<char>)
    ensures
        c.weight_handles.contains_key(name) && c.tensors.contains_key(c.weight_handles[name])
            ==> get_outcome(c, name) == Ok::<StepView, ErrorView>(
            StepView::Done(ValueView::Int(c.weight_handles[name])),
        ),
        !(c.weight_handles.contains_key(name) && c.tensors.contains_key(c.weight_handles[name]))
            && c.weights.contains_key(name) ==> get_outcome(c, name) == Ok::<StepView, ErrorView>(
            StepView::Take(name, name),
        ),
        get_outcome(c, name) matches Ok(StepView::Take(kept, source)) ==> kept == name && source
            == name && c.weights.contains_key(name),
        get_outcome(c, name) matches Ok(StepView::Fuse(kept, parts)) ==> kept == name
            && !c.weights.contains_key(name),
        get_outcome(c, name) matches Ok(StepView::Done(v)) ==> v is Int && c.tensors.contains_key(
            v->Int_0,
        ) && c.weight_handles.contains_key(name) && c.weight_handles[name] == v->Int_0,
        !(c.weight_handles.contains_key(name) && c.tensors.contains_key(c.weight_handles[name]))
            && !c.weights.contains_key(name) && !text::has_suffix(
            name,
            ".self_attn.qkv_proj.weight"@,
        ) && !text::has_suffix(name, ".feed_forward.w1_w3.weight"@) ==> get_outcome(c, name)
            == Err::<StepView, ErrorView>(ErrorView::Host("missing weight '"@ + name + "'"@)),
{
    let qkv = ".self_attn.qkv_proj.weight"@;
    let gate = ".feed_forward.w1_w3.weight"@;
    lemma_fused_parts(c, qkv_parts(stem(name, qkv)), 0);
    lemma_fused_parts(c, gate_parts(stem(name, gate)), 0);
}

/// A weight asked for by prefix, index and suffix is the one asked for by the name made of the
/// prefix, the digits of the index itself and the suffix; two indices ask for two names.
pub proof fn law_indexed_weight<T>(
    c: ContextView<T>,
    args: Seq<Value>,
    prefix: Seq<char>,
    index: i64,
    suffix: Seq<char>,
    other: i64,
)
    requires
        args.len() >= 3,
        args[0] matches Value::String(s) && s@ == prefix,
        args[1] == Value::Int(index),
        args[2] matches Value::String(s) && s@ == suffix,
    ensures
        indexed_outcome(c, args) == get_outcome(c, prefix + text::decimal(index as int) + suffix),
        prefix + text::decimal(index as int) + suffix == prefix + text::decimal(other as int)
            + suffix ==> index == other,
{
    let a = text::decimal(index as int);
    let b = text::decimal(other as int);
    number::law_decimal_reads_back(index as int);
    if prefix + a + suffix == prefix + b + suffix {
        let whole = prefix + a + suffix;
        assert(whole.len() == prefix.len() + a.len() + suffix.len());
        assert(whole.len() == prefix.len() + b.len() + suffix.len());
        assert(whole.subrange(prefix.len() as int, (prefix.len() + a.len()) as int) =~= a);
        assert(whole.subrange(prefix.len() as int, (prefix.len() + b.len()) as int) =~= b);
        assert(a == b);
    }
}

/// The fused weight of an attention layer that is not stored is made of the query, the key and the
/// value weight of that layer, in this order, and needs all three.
pub proof fn law_fused_attention<T>(c: ContextView<T>, prefix: Seq<char>)
    requires
        !c.weights.contains_key(prefix + ".self_attn.qkv_proj.weight"@),
    ensures
        ({
            let q = prefix + ".self_attn.q_proj.weight"@;
            let k = prefix + ".self_attn.k_proj.weight"@;
            let v = prefix + ".self_attn.v_proj.weight"@;
            let source = source_outcome(c, prefix + ".self_attn.qkv_proj.weight"@);
            &&& source is Ok <==> c.weights.contains_key(q) && c.weights.contains_key(k)
                && c.weights.contains_key(v)
            &&& source matches Ok(s) ==> s == SourceView::Fused(seq![q, k, v])
        }),
{
    let suffix = ".self_attn.qkv_proj.weight"@;
    let name = prefix + suffix;
    assert(name.skip(name.len() - suffix.len()) =~= suffix);
    assert(stem(name, suffix) =~= prefix);
    reveal_with_fuel(fused_parts, 4);
}

/// The fused weight of a feed-forward layer that is not stored is made of its first and its third
/// weight, in this order, and needs both.
pub proof fn law_fused_feed_forward<T>(c: ContextView<T>, prefix: Seq<char>)
    requires
        !c.weights.contains_key(prefix + ".feed_forward.w1_w3.weight"@),
    ensures
        ({
            let first = prefix + ".feed_forward.w1.weight"@;
            let third = prefix + ".feed_forward.w3.weight"@;
            let source = source_outcome(c, prefix + ".feed_forward.w1_w3.weight"@);
            &&& source is Ok <==> c.weights.contains_key(first) && c.weights.contains_key(third)
            &&& source matches Ok(s) ==> s == SourceView::Fused(seq![first, third])
        }),
{
    let suffix = ".feed_forward.w1_w3.weight"@;
    let name = prefix + suffix;
    assert(name.skip(name.len() - suffix.len()) =~= suffix);
    assert(stem(name, suffix) =~= prefix);
    let other = ".self_attn.qkv_proj.weight"@;
    reveal_strlit(".feed_forward.w1_w3.weight");
    reveal_strlit(".self_attn.qkv_proj.weight");
    assert(!text::has_suffix(name, other)) by {
        if text::has_suffix(name, other) {
            let tail = name.skip(name.len() - other.len());
            let place = other.len() - 8;
            assert(tail[place] == other[place]);
            assert(name[name.len() - 8] == suffix[suffix.len() - 8]);
        }
    }
    reveal_with_fuel(fused_parts, 3);
}

/// With a fallback, a weight that is there or can be made is had as without one, and no other
/// weight stands in for it; where it is not, the fallback is taken under its name, or by the
/// handle that the fallback has, which the name then has too; where neither is there, the fallback
/// is named as missing.
pub proof fn law_fallback_weight<T>(c: ContextView<T>, name: Seq<char>, fallback: Seq<char>)
    ensures
        c.weights.contains_key(name) ==> get_or_outcome(c, name, fallback) == (
            c,
            get_outcome(c, name),
        ),
        cached(c, name) is Some ==> get_or_outcome(c, name, fallback) == (c, get_outcome(c, name)),
        !c.weights.contains_key(name) && !(c.weight_handles.contains_key(name)
            && c.tensors.contains_key(c.weight_handles[name])) && c.weight_handles.contains_key(
            fallback,
        ) && c.tensors.contains_key(c.weight_handles[fallback]) ==> {
            let (after, r) = get_or_outcome(c, name, fallback);
            &&& r == Ok::<StepView, ErrorView>(
                StepView::Done(ValueView::Int(c.weight_handles[fallback])),
            )
            &&& name != fallback
            &&& after.weight_handles == c.weight_handles.insert(
                name,
                c.weight_handles[fallback],
            )
            &&& after.tensors == c.tensors
            &&& after.weights == c.weights
        },
        !c.weights.contains_key(name) && !(c.weight_handles.contains_key(fallback)
            && c.tensors.contains_key(c.weight_handles[fallback])) && get_outcome(c, name) is Ok
            ==> get_or_outcome(c, name, fallback) == (c, get_outcome(c, name)),
        get_outcome(c, name) is Err && !(c.weight_handles.contains_key(fallback)
            && c.tensors.contains_key(c.weight_handles[fallback])) ==> {
            let (after, r) = get_or_outcome(c, name, fallback);
            &&& after == c
            &&& c.weights.contains_key(fallback) ==> r == Ok::<StepView, ErrorView>(
                StepView::Take(name, fallback),
            )
            &&& !c.weights.contains_key(fallback) ==> r == Err::<StepView, ErrorView>(
                ErrorView::Host("missing weight '"@ + fallback + "'"@),
            )
        },
{
}

/// An optional weight that can be had is had as one that is not optional; for one that cannot, a
/// handle is given that no tensor and no other missing weight has.
pub proof fn law_optional_weight<T>(c: ContextView<T>, name: Seq<char>)
    requires
        c.wf(),
        c.next_missing_weight > i64::MIN,
    ensures
        get_outcome(c, name) is Ok ==> optional_outcome(c, name) == (c, get_outcome(c, name)),
        get_outcome(c, name) is Err ==> {
            let (after, r) = optional_outcome(c, name);
            &&& r matches Ok(StepView::Done(ValueView::Int(h)))
            &&& h < 0
            &&& !c.missing_weight_handles.contains_key(h)
            &&& after.missing_weight_handles == c.missing_weight_handles.insert(h, name)
            &&& after.next_missing_weight < h
            &&& after.tensors == c.tensors
            &&& after.weights == c.weights
            &&& after.weight_handles == c.weight_handles
        },
{
}

/// Whether the tensor in place `i` is the last one with a name.
pub open spec fn is_last_named<T>(
    tensors: Seq<(String, HostTensor<T>)>,
    name: Seq<char>,
    i: int,
) -> bool {
    &&& 0 <= i < tensors.len()
    &&& tensors[i].0@ == name
    &&& forall|j: int| i < j < tensors.len() ==> (#[trigger] tensors[j]).0@ != name
}

/// The weights that are kept are those that were read: each name that was read, and no other, with
/// the last tensor that was read under it.
pub proof fn law_weights_are_kept<T>(tensors: Seq<(String, HostTensor<T>)>, name: Seq<char>)
    ensures
        named_weights(tensors).contains_key(name) <==> exists|i: int| #[trigger]
            is_last_named(tensors, name, i),
        forall|i: int| #[trigger]
            is_last_named(tensors, name, i) ==> named_weights(tensors)[name] == tensors[i].1,
    decreases tensors.len(),
{
    if tensors.len() > 0 {
        let front = tensors.drop_last();
        let last = tensors.len() - 1;
        law_weights_are_kept(front, name);
        if tensors[last].0@ == name {
            assert(is_last_named(tensors, name, last));
            assert forall|i: int| #[trigger] is_last_named(tensors, name, i) implies i == last by {
                if i < last {
                    assert(tensors[last].0@ != name);
                }
            }
        } else {
            assert forall|i: int| #[trigger] is_last_named(tensors, name, i) implies is_last_named(
                front,
                name,
                i,
            ) by {
                assert(i < last);
                assert(front[i] == tensors[i]);
                assert forall|j: int| i < j < front.len() implies (#[trigger] front[j]).0@
                    != name by {
                    assert(tensors[j].0@ != name);
                }
            }
            assert forall|i: int| #[trigger] is_last_named(front, name, i) implies is_last_named(
                tensors,
                name,
                i,
            ) by {
                assert(front[i] == tensors[i]);
                assert forall|j: int| i < j < tensors.len() implies (#[trigger] tensors[j]).0@
                    != name by {
                    if j < last {
                        assert(front[j].0@ != name);
                    }
                }
            }
            if named_weights(front).contains_key(name) {
                let i = choose|i: int| #[trigger] is_last_named(front, name, i);
                assert(is_last_named(tensors, name, i));
            }
            assert forall|i: int| #[trigger] is_last_named(
                tensors,
                name,
                i,
            ) implies named_weights(tensors)[name] == tensors[i].1 by {
                assert(is_last_named(front, name, i));
                assert(front[i] == tensors[i]);
            }
        }
    }
}

/// The files that weights are read from are those with a name before `.safetensors`, in any letter
/// case, and they come in the order of their characters.
pub proof fn law_weight_files(name: Seq<char>, a: Seq<char>, b: Seq<char>, i: int)
    requires
        0 <= i < a.len(),
        i < b.len(),
        forall|k: int| 0 <= k < i ==> #[trigger] a[k] == b[k],
        a[i] < b[i],
    ensures
        is_weight_file(name) <==> name.len() > 12 && name[name.len() - 12] == '.'
            && text::lower_text(name.skip(name.len() - 11)) == "safetensors"@,
        text_le(a, b),
        !text_le(b, a),
{
    reveal_strlit("safetensors");
    reveal_strlit("..");
    let n = name.len() as int;
    if is_weight_file(name) {
        let dot = text::last_dot(name);
        lemma_dot_is_there(name);
        assert(text::lower_text(name.skip(dot + 1)).len() == 11);
        assert(dot == n - 12);
    }
    if n > 12 && name[n - 12] == '.' && text::lower_text(name.skip(n - 11)) == "safetensors"@ {
        let stem = name.take(n - 12);
        let ending = name.skip(n - 11);
        assert(stem + seq!['.'] + ending =~= name);
        assert(!ending.contains('.')) by {
            if ending.contains('.') {
                let k = choose|k: int| 0 <= k < ending.len() && ending[k] == '.';
                assert(text::lower_text(ending)[k] == '.');
                assert(!"safetensors"@.contains('.'));
                assert("safetensors"@[k] == '.');
            }
        }
        text::law_extension(stem, ending);
    }
    lemma_text_le_differ(a, b, i);
}

proof fn lemma_dot_is_there(name: Seq<char>)
    requires
        text::last_dot(name) >= 0,
    ensures
        text::last_dot(name) < name.len(),
        name[text::last_dot(name)] == '.',
    decreases name.len(),
{
    if name.last() != '.' {
        lemma_dot_is_there(name.drop_last());
    }
}

proof fn lemma_text_le_differ(a: Seq<char>, b: Seq<char>, i: int)
    requires
        0 <= i < a.len(),
        i < b.len(),
        forall|k: int| 0 <= k < i ==> #[trigger] a[k] == b[k],
        a[i] < b[i],
    ensures
        text_le(a, b),
        !text_le(b, a),
    decreases i,
{
    if i > 0 {
        assert(a[0] == b[0]);
        assert forall|k: int| 0 <= k < i - 1 implies #[trigger] a.skip(1)[k] == b.skip(1)[k] by {
            assert(a[k + 1] == b[k + 1]);
        }
        lemma_text_le_differ(a.skip(1), b.skip(1), i - 1);
    }
}

/// A tensor that is found among names has the name asked for, and none before it has; where none
/// is found, none has it.
pub proof fn law_tensor_by_name(names: Seq<Seq<char>>, name: Seq<char>, from: int)
    requires
        0 <= from <= names.len(),
    ensures
        from <= name_index(names, name, from) <= names.len(),
        name_index(names, name, from) < names.len() ==> names[name_index(names, name, from)]
            == name,
        forall|k: int| from <= k < name_index(names, name, from) ==> #[trigger] names[k] != name,
    decreases names.len() - from,
{
    if from < names.len() && names[from] != name {
        law_tensor_by_name(names, name, from + 1);
    }
}

/// The type of weights is asked for by name in any letter case, half, bf16 or float, and `native`
/// asks for none; without a setting it is float.
pub proof fn law_weight_kind(s: Seq<char>, t: Seq<char>)
    ensures
        text::lower_text(s) == text::lower_text(t) ==> weight_kind_setting(Some(s))
            == weight_kind_setting(Some(t)),
        text::lower_text(s) == "half"@ ==> weight_kind_setting(Some(s)) == Ok::<
            Option<Kind>,
            Seq<char>,
        >(Some(Kind::Half)),
        text::lower_text(s) == "bf16"@ ==> weight_kind_setting(Some(s)) == Ok::<
            Option<Kind>,
            Seq<char>,
        >(Some(Kind::BFloat16)),
        text::lower_text(s) == "float"@ ==> weight_kind_setting(Some(s)) == Ok::<
            Option<Kind>,
            Seq<char>,
        >(Some(Kind::Float)),
        text::lower_text(s) == "native"@ ==> weight_kind_setting(Some(s)) == Ok::<
            Option<Kind>,
            Seq<char>,
        >(None),
        weight_kind_setting(None) == Ok::<Option<Kind>, Seq<char>>(Some(Kind::Float)),
{
    reveal_strlit("half");
    reveal_strlit("bf16");
    reveal_strlit("float");
    reveal_strlit("native");
    reveal_strlit("");
    reveal_strlit("auto");
    reveal_strlit("fp16");
    reveal_strlit("f16");
    reveal_strlit("bfloat16");
    reveal_strlit("fp32");
    reveal_strlit("f32");
    assert("half"@[0] == 'h' && "auto"@[0] == 'a' && "bf16"@[0] == 'b' && "fp16"@[0] == 'f');
    assert("half"@ != "auto"@ && "bf16"@ != "auto"@ && "bf16"@ != "half"@ && "bf16"@ != "fp16"@);
    assert("half"@.len() == 4 && "bf16"@.len() == 4 && "float"@.len() == 5);
}

/// Loading answers with the number of the weights.
pub proof fn law_weight_count(count: nat)
    ensures
        count <= i64::MAX ==> count_outcome(count) == Ok::<ValueView, ErrorView>(
            ValueView::Int(count as i64),
        ),
        count_outcome(count) matches Ok(v) ==> v is Int && v->Int_0 == count,
{
}

/// Weights are read again where another type of them is asked for, and the handles that were given
/// out for them are forgotten.
pub proof fn law_other_type_is_read<T>(
    c: ContextView<T>,
    path: Seq<char>,
    kind: Option<Kind>,
    after: ContextView<T>,
    r: VmResult<LoadPlan>,
    name: Seq<char>,
)
    requires
        load_request(c, path, Ok(kind), after, r),
        c.weights_kind != kind,
    ensures
        r matches Ok(LoadPlan::Read { path: p, kind: k }) && p@ == path && k == kind,
        !after.weight_handles.contains_key(name),
        after.conv1d_step_weights.dom().len() == 0,
        after.tensors == c.tensors,
        after.weights == c.weights,
        after.weights_path == c.weights_path,
{
}

/// The files that weights are read from are the weight files of the directory, each as often as it
/// is listed there, and no other.
pub proof fn law_weight_listing(names: Seq<Seq<char>>, files: Seq<Seq<char>>, file: Seq<char>)
    requires
        is_weight_listing(names, files),
    ensures
        files.contains(file) <==> names.contains(file) && is_weight_file(file),
        files.len() == names.filter(|name: Seq<char>| is_weight_file(name)).len(),
        forall|i: int, j: int| 0 <= i <= j < files.len() ==> text_le(files[i], files[j]),
{
    let keep = |name: Seq<char>| is_weight_file(name);
    let kept = names.filter(keep);
    vstd::seq_lib::to_multiset_len(files);
    vstd::seq_lib::to_multiset_len(kept);
    vstd::seq_lib::to_multiset_contains(files, file);
    vstd::seq_lib::to_multiset_contains(kept, file);
    if kept.contains(file) {
        let i = choose|i: int| 0 <= i < kept.len() && kept[i] == file;
        names.lemma_filter_pred(keep, i);
        names.lemma_filter_contains_rev(keep, file);
    }
    if names.contains(file) && is_weight_file(file) {
        let i = choose|i: int| 0 <= i < names.len() && names[i] == file;
        names.lemma_filter_contains(keep, i);
    }
}

/// Weights of the floating-point types are turned into the type asked for, and no others.
pub proof fn law_float_weights(kind: Kind)
    ensures
        is_float(kind) <==> kind != Kind::Uint8 && kind != Kind::Int8 && kind != Kind::Int16 && kind
            != Kind::Int && kind != Kind::Int64 && kind != Kind::ComplexHalf && kind
            != Kind::ComplexFloat && kind != Kind::ComplexDouble && kind != Kind::Bool && kind
            != Kind::QInt8 && kind != Kind::QUInt8 && kind != Kind::QInt32,
{
}

} // verus!
