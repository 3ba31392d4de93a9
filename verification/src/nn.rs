//! Layers: which tensors and weights they take, and what their shapes allow.
use vstd::prelude::*;
use vstd::string::*;

use crate::args;
use crate::args::{FloatArg, FloatArgView};
use crate::context;
use crate::context::{Conv1dStepWeights, ContextView, HostTensor, Kind, TorchContext};
use crate::shapes;
use crate::shapes::sized_arg;
use crate::text;
use crate::value::{host_error, ErrorView, Value, VmError, VmResult};

verus! {

/// A tensor that may be left out: zero stands for none.
pub open spec fn optional_tensor<T>(c: ContextView<T>, handle: i64) -> Result<
    Option<i64>,
    ErrorView,
> {
    if handle == 0 {
        Ok(None)
    } else {
        match context::tensor_outcome(c, handle) {
            Err(e) => Err(e),
            Ok(_) => Ok(Some(handle)),
        }
    }
}

fn find_optional<T>(context: &TorchContext<T>, handle: i64) -> (r: VmResult<Option<i64>>)
    ensures
        match r {
            Ok(h) => optional_tensor(context@, handle) == Ok::<Option<i64>, ErrorView>(h),
            Err(e) => optional_tensor(context@, handle) == Err::<Option<i64>, ErrorView>(e@),
        },
{
    if handle == 0 {
        Ok(None)
    } else {
        match context.tensor(handle) {
            Err(e) => Err(e),
            Ok(_) => Ok(Some(handle)),
        }
    }
}

/// How a linear layer is computed: as a matrix product, or, for one row, as a product of the
/// weight and a vector of `len` items that takes the shape `out`.
#[derive(Debug)]
pub enum LinearMethod {
    Product,
    MatVec { len: i64, out: Vec<i64> },
}

/// The model of a [`LinearMethod`].
pub enum MethodView {
    Product,
    MatVec(i64, Seq<i64>),
}

impl View for LinearMethod {
    type V = MethodView;

    open spec fn view(&self) -> MethodView {
        match self {
            LinearMethod::Product => MethodView::Product,
            LinearMethod::MatVec { len, out } => MethodView::MatVec(*len, out@),
        }
    }
}

/// How a linear layer without bias is computed for tensors of these sizes.
pub open spec fn linear_method(input: Seq<i64>, weight: Seq<i64>) -> MethodView {
    if weight.len() > 0 && input.len() == 3 && input[0] == 1 && input[1] == 1 {
        MethodView::MatVec(input[2], seq![1i64, 1i64, weight[0]])
    } else if weight.len() > 0 && input.len() == 2 && input[0] == 1 {
        MethodView::MatVec(input[1], seq![1i64, weight[0]])
    } else {
        MethodView::Product
    }
}

/// How a linear layer without bias is computed for tensors of these sizes.
pub fn linear_or_mv(input: &Vec<i64>, weight: &Vec<i64>) -> (r: LinearMethod)
    ensures
        r@ == linear_method(input@, weight@),
{
    if weight.len() == 0 {
        return LinearMethod::Product;
    }
    let features: i64 = weight[0];
    if input.len() == 3 && input[0] == 1 && input[1] == 1 {
        let mut out: Vec<i64> = Vec::new();
        out.push(1);
        out.push(1);
        out.push(features);
        assert(out@ =~= seq![1i64, 1i64, weight@[0]]);
        return LinearMethod::MatVec { len: input[2], out };
    }
    if input.len() == 2 && input[0] == 1 {
        let mut out: Vec<i64> = Vec::new();
        out.push(1);
        out.push(features);
        assert(out@ =~= seq![1i64, weight@[0]]);
        return LinearMethod::MatVec { len: input[1], out };
    }
    LinearMethod::Product
}

/// Whether the setting allows the product with a vector: it does unless it is empty or zero.
pub fn linear_mv_enabled(setting: Option<&str>) -> (r: bool)
    ensures
        r == (match setting {
            None => true,
            Some(s) => s@ != "0"@ && s@.len() > 0,
        }),
{
    match setting {
        None => true,
        Some(s) => !text::same_text(s, "0") && s.unicode_len() > 0,
    }
}

/// A linear layer: its tensors and how it is computed.
#[derive(Debug)]
pub struct LinearPlan {
    pub input: i64,
    pub weight: i64,
    pub bias: Option<i64>,
    pub method: LinearMethod,
}

/// The model of a [`LinearPlan`].
pub type LinearView = (i64, i64, Option<i64>, MethodView);

/// What a linear layer comes to.
pub open spec fn linear_outcome<T>(c: ContextView<T>, args: Seq<Value>, vectors: bool) -> Result<
    LinearView,
    ErrorView,
> {
    let op = c.active_host_op;
    match args::int_at(op, args, 0, "tensor"@) {
        Err(e) => Err(e),
        Ok(input) => match args::int_at(op, args, 1, "weight"@) {
            Err(e) => Err(e),
            Ok(weight) => if input == 0 {
                Err(ErrorView::Host("linear input handle is 0"@))
            } else if weight == 0 {
                Err(ErrorView::Host("linear weight handle is 0"@))
            } else {
                match context::tensor_outcome(c, input) {
                    Err(e) => Err(e),
                    Ok(x) => match context::tensor_outcome(c, weight) {
                        Err(e) => Err(e),
                        Ok(w) => match args::int_at(op, args, 2, "bias"@) {
                            Err(e) => Err(e),
                            Ok(b) => match optional_tensor(c, b) {
                                Err(e) => Err(e),
                                Ok(bias) => Ok(
                                    (
                                        input,
                                        weight,
                                        bias,
                                        if bias is None && vectors {
                                            linear_method(x.size@, w.size@)
                                        } else {
                                            MethodView::Product
                                        },
                                    ),
                                ),
                            },
                        },
                    },
                }
            },
        },
    }
}

/// Plans a linear layer; `vectors` says whether the product with a vector is allowed.
pub fn nn_linear<T>(context: &TorchContext<T>, args: &[Value], vectors: bool) -> (r: VmResult<
    LinearPlan,
>)
    ensures
        match r {
            Ok(p) => linear_outcome(context@, args@, vectors) == Ok::<LinearView, ErrorView>(
                (p.input, p.weight, p.bias, p.method@),
            ),
            Err(e) => linear_outcome(context@, args@, vectors) == Err::<LinearView, ErrorView>(
                e@,
            ),
        },
{
    let op: &Option<String> = &context.active_host_op;
    let input: i64 = match args::int_arg(op, args, 0, "tensor") {
        Err(e) => {
            return Err(e);
        },
        Ok(h) => h,
    };
    let weight: i64 = match args::int_arg(op, args, 1, "weight") {
        Err(e) => {
            return Err(e);
        },
        Ok(h) => h,
    };
    if input == 0 {
        return Err(host_error("linear input handle is 0"));
    }
    if weight == 0 {
        return Err(host_error("linear weight handle is 0"));
    }
    let x: &HostTensor<T> = match context.tensor(input) {
        Err(e) => {
            return Err(e);
        },
        Ok(t) => t,
    };
    let w: &HostTensor<T> = match context.tensor(weight) {
        Err(e) => {
            return Err(e);
        },
        Ok(t) => t,
    };
    let bias: Option<i64> = match args::int_arg(op, args, 2, "bias") {
        Err(e) => {
            return Err(e);
        },
        Ok(h) => match find_optional(context, h) {
            Err(e) => {
                return Err(e);
            },
            Ok(bias) => bias,
        },
    };
    let method: LinearMethod = if bias.is_none() && vectors {
        linear_or_mv(&x.size, &w.size)
    } else {
        LinearMethod::Product
    };
    Ok(LinearPlan { input, weight, bias, method })
}

/// A layer norm: its tensors, its epsilon and the size it runs over.
#[derive(Debug)]
pub struct LayerNormPlan {
    pub input: i64,
    pub weight: Option<i64>,
    pub bias: Option<i64>,
    pub eps: FloatArg,
    pub size: i64,
}

/// The model of a [`LayerNormPlan`].
pub type LayerNormView = (i64, Option<i64>, Option<i64>, FloatArgView, i64);

/// What a layer norm comes to.
pub open spec fn layer_norm_outcome<T>(c: ContextView<T>, args: Seq<Value>) -> Result<
    LayerNormView,
    ErrorView,
> {
    let op = c.active_host_op;
    match args::tensor_at(c, args, 0, "tensor"@) {
        Err(e) => Err(e),
        Ok(input) => match args::int_at(op, args, 1, "weight"@) {
            Err(e) => Err(e),
            Ok(weight) => match args::int_at(op, args, 2, "bias"@) {
                Err(e) => Err(e),
                Ok(bias) => match args::float_at(op, args, 3, "eps"@) {
                    Err(e) => Err(e),
                    Ok(eps) => match args::int_at(op, args, 4, "normalized_size"@) {
                        Err(e) => Err(e),
                        Ok(size) => match optional_tensor(c, weight) {
                            Err(e) => Err(e),
                            Ok(weight) => match optional_tensor(c, bias) {
                                Err(e) => Err(e),
                                Ok(bias) => Ok((input, weight, bias, eps, size)),
                            },
                        },
                    },
                },
            },
        },
    }
}

/// Plans a layer norm.
pub fn nn_layer_norm<T>(context: &TorchContext<T>, args: &[Value]) -> (r: VmResult<LayerNormPlan>)
    ensures
        match r {
            Ok(p) => layer_norm_outcome(context@, args@) == Ok::<LayerNormView, ErrorView>(
                (p.input, p.weight, p.bias, p.eps@, p.size),
            ),
            Err(e) => layer_norm_outcome(context@, args@) == Err::<LayerNormView, ErrorView>(e@),
        },
{
    let op: &Option<String> = &context.active_host_op;
    let input: i64 = match args::tensor_arg(context, args, 0, "tensor") {
        Err(e) => {
            return Err(e);
        },
        Ok(h) => h,
    };
    let weight: i64 = match args::int_arg(op, args, 1, "weight") {
        Err(e) => {
            return Err(e);
        },
        Ok(h) => h,
    };
    let bias: i64 = match args::int_arg(op, args, 2, "bias") {
        Err(e) => {
            return Err(e);
        },
        Ok(h) => h,
    };
    let eps: FloatArg = match args::float_arg(op, args, 3, "eps") {
        Err(e) => {
            return Err(e);
        },
        Ok(v) => v,
    };
    let size: i64 = match args::int_arg(op, args, 4, "normalized_size") {
        Err(e) => {
            return Err(e);
        },
        Ok(n) => n,
    };
    match find_optional(context, weight) {
        Err(e) => Err(e),
        Ok(weight) => match find_optional(context, bias) {
            Err(e) => Err(e),
            Ok(bias) => Ok(LayerNormPlan { input, weight, bias, eps, size }),
        },
    }
}

/// A gated activation followed by a linear layer.
#[derive(Debug)]
pub struct SwigluLinearPlan {
    pub input: i64,
    pub weight: i64,
    pub half: i64,
    pub bias: Option<i64>,
}

/// The model of a [`SwigluLinearPlan`].
pub type SwigluLinearView = (i64, i64, i64, Option<i64>);

/// What a gated activation followed by a linear layer comes to.
pub open spec fn swiglu_linear_outcome<T>(c: ContextView<T>, args: Seq<Value>) -> Result<
    SwigluLinearView,
    ErrorView,
> {
    match shapes::sizes_at(c, args, 0, "tensor"@) {
        Err(e) => Err(e),
        Ok((input, size)) => match args::tensor_at(c, args, 1, "weight"@) {
            Err(e) => Err(e),
            Ok(weight) => match args::int_at(c.active_host_op, args, 2, "bias"@) {
                Err(e) => Err(e),
                Ok(b) => match shapes::even_half(size, "swiglu_linear"@) {
                    Err(e) => Err(e),
                    Ok(half) => match optional_tensor(c, b) {
                        Err(e) => Err(e),
                        Ok(bias) => Ok((input, weight, half, bias)),
                    },
                },
            },
        },
    }
}

/// Plans a gated activation followed by a linear layer.
pub fn nn_swiglu_linear<T>(context: &TorchContext<T>, args: &[Value]) -> (r: VmResult<
    SwigluLinearPlan,
>)
    ensures
        match r {
            Ok(p) => swiglu_linear_outcome(context@, args@) == Ok::<SwigluLinearView, ErrorView>(
                (p.input, p.weight, p.half, p.bias),
            ),
            Err(e) => swiglu_linear_outcome(context@, args@) == Err::<SwigluLinearView, ErrorView>(
                e@,
            ),
        },
{
    let (input, tensor) = match sized_arg(context, args, 0, "tensor") {
        Err(e) => {
            return Err(e);
        },
        Ok(pair) => pair,
    };
    let weight: i64 = match args::tensor_arg(context, args, 1, "weight") {
        Err(e) => {
            return Err(e);
        },
        Ok(h) => h,
    };
    let bias: i64 = match args::int_arg(&context.active_host_op, args, 2, "bias") {
        Err(e) => {
            return Err(e);
        },
        Ok(h) => h,
    };
    match shapes::half_of_last(&tensor.size, "swiglu_linear") {
        Err(e) => Err(e),
        Ok(half) => match find_optional(context, bias) {
            Err(e) => Err(e),
            Ok(bias) => Ok(SwigluLinearPlan { input, weight, half, bias }),
        },
    }
}

/// Half of a number, rounded toward zero.
pub open spec fn half_toward_zero(n: int) -> int {
    if n >= 0 {
        n / 2
    } else {
        -((-n) / 2)
    }
}

/// Half of the last size of a tensor that is rotated.
pub open spec fn rotary_half(size: Seq<i64>) -> Result<int, ErrorView> {
    if size.len() == 0 {
        Err(ErrorView::Host("input must have at least one dimension"@))
    } else {
        Ok(half_toward_zero(size.last() as int))
    }
}

/// Half of the last size of a tensor that is rotated.
pub fn rotary_half_of(size: &Vec<i64>) -> (r: VmResult<i64>)
    ensures
        match r {
            Ok(n) => rotary_half(size@) == Ok::<int, ErrorView>(n as int),
            Err(e) => rotary_half(size@) == Err::<int, ErrorView>(e@),
        },
{
    if size.len() == 0 {
        return Err(host_error("input must have at least one dimension"));
    }
    let last: i64 = size[size.len() - 1];
    if last >= 0 {
        Ok(last / 2)
    } else if last == i64::MIN {
        Ok(-4611686018427387904)
    } else {
        Ok(-((-last) / 2))
    }
}

/// A rotation: its tensors and half of the size that is turned.
#[derive(Clone, Copy, Debug, PartialEq, Eq, Structural)]
pub struct RopePlan {
    pub input: i64,
    pub cos: i64,
    pub sin: i64,
    pub half: i64,
}

/// What a rotation comes to.
pub open spec fn apply_rope_outcome<T>(c: ContextView<T>, args: Seq<Value>) -> Result<
    RopePlan,
    ErrorView,
> {
    match shapes::sizes_at(c, args, 0, "tensor"@) {
        Err(e) => Err(e),
        Ok((input, size)) => match args::tensor_at(c, args, 1, "cos"@) {
            Err(e) => Err(e),
            Ok(cos) => match args::tensor_at(c, args, 2, "sin"@) {
                Err(e) => Err(e),
                Ok(sin) => match rotary_half(size) {
                    Err(e) => Err(e),
                    Ok(half) => Ok(RopePlan { input, cos, sin, half: half as i64 }),
                },
            },
        },
    }
}

/// Plans a rotation.
pub fn nn_apply_rope<T>(context: &TorchContext<T>, args: &[Value]) -> (r: VmResult<RopePlan>)
    ensures
        match r {
            Ok(p) => apply_rope_outcome(context@, args@) == Ok::<RopePlan, ErrorView>(p),
            Err(e) => apply_rope_outcome(context@, args@) == Err::<RopePlan, ErrorView>(e@),
        },
{
    let (input, tensor) = match sized_arg(context, args, 0, "tensor") {
        Err(e) => {
            return Err(e);
        },
        Ok(pair) => pair,
    };
    let cos: i64 = match args::tensor_arg(context, args, 1, "cos") {
        Err(e) => {
            return Err(e);
        },
        Ok(h) => h,
    };
    let sin: i64 = match args::tensor_arg(context, args, 2, "sin") {
        Err(e) => {
            return Err(e);
        },
        Ok(h) => h,
    };
    match rotary_half_of(&tensor.size) {
        Err(e) => Err(e),
        Ok(half) => Ok(RopePlan { input, cos, sin, half }),
    }
}

/// The rotation of queries and keys in one: their tensors, their numbers of heads, and half of
/// the size that is turned.
#[derive(Clone, Copy, Debug, PartialEq, Eq, Structural)]
pub struct RopePairPlan {
    pub query: i64,
    pub key: i64,
    pub cos: i64,
    pub sin: i64,
    pub query_heads: i64,
    pub key_heads: i64,
    pub half: i64,
}

/// The number of heads of a tensor.
pub open spec fn heads(size: Seq<i64>, name: Seq<char>) -> Result<i64, ErrorView> {
    if size.len() < 2 {
        Err(ErrorView::Host(name + " must have at least 2 dimensions"@))
    } else {
        Ok(size[1])
    }
}

fn heads_of(size: &Vec<i64>, name: &str) -> (r: VmResult<i64>)
    ensures
        match r {
            Ok(n) => heads(size@, name@) == Ok::<i64, ErrorView>(n),
            Err(e) => heads(size@, name@) == Err::<i64, ErrorView>(e@),
        },
{
    if size.len() < 2 {
        Err(host_error(text::join2(name, " must have at least 2 dimensions").as_str()))
    } else {
        Ok(size[1])
    }
}

/// What the rotation of queries and keys comes to. The two are joined along their heads, so the
/// size that is turned is the last of the queries.
pub open spec fn rope_pair_outcome<T>(c: ContextView<T>, args: Seq<Value>) -> Result<
    RopePairPlan,
    ErrorView,
> {
    match shapes::sizes_at(c, args, 0, "query"@) {
        Err(e) => Err(e),
        Ok((query, query_size)) => match shapes::sizes_at(c, args, 1, "key"@) {
            Err(e) => Err(e),
            Ok((key, key_size)) => match args::tensor_at(c, args, 2, "cos"@) {
                Err(e) => Err(e),
                Ok(cos) => match args::tensor_at(c, args, 3, "sin"@) {
                    Err(e) => Err(e),
                    Ok(sin) => match heads(query_size, "query"@) {
                        Err(e) => Err(e),
                        Ok(query_heads) => match heads(key_size, "key"@) {
                            Err(e) => Err(e),
                            Ok(key_heads) => Ok(
                                RopePairPlan {
                                    query,
                                    key,
                                    cos,
                                    sin,
                                    query_heads,
                                    key_heads,
                                    half: half_of_joined(query_size, key_size) as i64,
                                },
                            ),
                        },
                    },
                },
            },
        },
    }
}

/// Half of the last size of two tensors that are joined along their second dimension.
pub open spec fn half_of_joined(query: Seq<i64>, key: Seq<i64>) -> int {
    if query.len() == 2 {
        half_toward_zero(query[1] + key[1])
    } else {
        half_toward_zero(query.last() as int)
    }
}

/// Plans the rotation of queries and keys.
pub fn nn_apply_rope_pair<T>(
    context: &TorchContext<T>,
    args: &[Value],
) -> (r: VmResult<RopePairPlan>)
    ensures
        match r {
            Ok(p) => rope_pair_outcome(context@, args@) == Ok::<RopePairPlan, ErrorView>(p),
            Err(e) => rope_pair_outcome(context@, args@) == Err::<RopePairPlan, ErrorView>(e@),
        },
{
    let (query, query_tensor) = match sized_arg(context, args, 0, "query") {
        Err(e) => {
            return Err(e);
        },
        Ok(pair) => pair,
    };
    let (key, key_tensor) = match sized_arg(context, args, 1, "key") {
        Err(e) => {
            return Err(e);
        },
        Ok(pair) => pair,
    };
    let cos: i64 = match args::tensor_arg(context, args, 2, "cos") {
        Err(e) => {
            return Err(e);
        },
        Ok(h) => h,
    };
    let sin: i64 = match args::tensor_arg(context, args, 3, "sin") {
        Err(e) => {
            return Err(e);
        },
        Ok(h) => h,
    };
    let query_heads: i64 = match heads_of(&query_tensor.size, "query") {
        Err(e) => {
            return Err(e);
        },
        Ok(n) => n,
    };
    let key_heads: i64 = match heads_of(&key_tensor.size, "key") {
        Err(e) => {
            return Err(e);
        },
        Ok(n) => n,
    };
    let turned: i128 = if query_tensor.size.len() == 2 {
        query_heads as i128 + key_heads as i128
    } else {
        query_tensor.size[query_tensor.size.len() - 1] as i128
    };
    let half: i128 = if turned >= 0 {
        turned / 2
    } else {
        -((-turned) / 2)
    };
    Ok(
        RopePairPlan {
            query,
            key,
            cos,
            sin,
            query_heads,
            key_heads,
            half: half as i64,
        },
    )
}

/// A convolution along one dimension; the result takes the element type of the input.
#[derive(Clone, Copy, Debug, PartialEq, Eq, Structural)]
pub struct Conv1dPlan {
    pub input: i64,
    pub weight: i64,
    pub bias: Option<i64>,
    pub stride: i64,
    pub padding: i64,
    pub dilation: i64,
    pub groups: i64,
    pub kind: Kind,
}

/// What a convolution along one dimension comes to.
pub open spec fn conv1d_outcome<T>(c: ContextView<T>, args: Seq<Value>) -> Result<
    Conv1dPlan,
    ErrorView,
> {
    let op = c.active_host_op;
    match args::tensor_at(c, args, 0, "tensor"@) {
        Err(e) => Err(e),
        Ok(input) => match args::tensor_at(c, args, 1, "weight"@) {
            Err(e) => Err(e),
            Ok(weight) => match args::int_at(op, args, 2, "bias"@) {
                Err(e) => Err(e),
                Ok(b) => match args::int_at(op, args, 3, "stride"@) {
                    Err(e) => Err(e),
                    Ok(stride) => match args::int_at(op, args, 4, "padding"@) {
                        Err(e) => Err(e),
                        Ok(padding) => match args::int_at(op, args, 5, "dilation"@) {
                            Err(e) => Err(e),
                            Ok(dilation) => match args::int_at(op, args, 6, "groups"@) {
                                Err(e) => Err(e),
                                Ok(groups) => match optional_tensor(c, b) {
                                    Err(e) => Err(e),
                                    Ok(bias) => Ok(
                                        Conv1dPlan {
                                            input,
                                            weight,
                                            bias,
                                            stride,
                                            padding,
                                            dilation,
                                            groups,
                                            kind: c.tensors[input].kind,
                                        },
                                    ),
                                },
                            },
                        },
                    },
                },
            },
        },
    }
}

/// Plans a convolution along one dimension.
pub fn nn_conv1d<T>(context: &TorchContext<T>, args: &[Value]) -> (r: VmResult<Conv1dPlan>)
    ensures
        match r {
            Ok(p) => conv1d_outcome(context@, args@) == Ok::<Conv1dPlan, ErrorView>(p),
            Err(e) => conv1d_outcome(context@, args@) == Err::<Conv1dPlan, ErrorView>(e@),
        },
{
    let op: &Option<String> = &context.active_host_op;
    let (input, tensor) = match sized_arg(context, args, 0, "tensor") {
        Err(e) => {
            return Err(e);
        },
        Ok(pair) => pair,
    };
    let weight: i64 = match args::tensor_arg(context, args, 1, "weight") {
        Err(e) => {
            return Err(e);
        },
        Ok(h) => h,
    };
    let bias: i64 = match args::int_arg(op, args, 2, "bias") {
        Err(e) => {
            return Err(e);
        },
        Ok(h) => h,
    };
    let stride: i64 = match args::int_arg(op, args, 3, "stride") {
        Err(e) => {
            return Err(e);
        },
        Ok(n) => n,
    };
    let padding: i64 = match args::int_arg(op, args, 4, "padding") {
        Err(e) => {
            return Err(e);
        },
        Ok(n) => n,
    };
    let dilation: i64 = match args::int_arg(op, args, 5, "dilation") {
        Err(e) => {
            return Err(e);
        },
        Ok(n) => n,
    };
    let groups: i64 = match args::int_arg(op, args, 6, "groups") {
        Err(e) => {
            return Err(e);
        },
        Ok(n) => n,
    };
    match find_optional(context, bias) {
        Err(e) => Err(e),
        Ok(bias) => Ok(
            Conv1dPlan {
                input,
                weight,
                bias,
                stride,
                padding,
                dilation,
                groups,
                kind: tensor.kind,
            },
        ),
    }
}

/// Whether a kernel has three taps for each of `groups` channels.
pub open spec fn is_depthwise3(weight: Seq<i64>, groups: i64) -> bool {
    weight == seq![groups, 1i64, 3i64]
}

/// Decides [`is_depthwise3`].
fn depthwise3(weight: &Vec<i64>, groups: i64) -> (r: bool)
    ensures
        r == is_depthwise3(weight@, groups),
{
    let r: bool = weight.len() == 3 && weight[0] == groups && weight[1] == 1 && weight[2] == 3;
    assert(r ==> weight@ =~= seq![groups, 1i64, 3i64]);
    r
}

/// The length of the result where a convolution that the backend refused can be written out as
/// three shifted products, or the message on one that cannot.
pub open spec fn fallback_outcome(
    plan: Conv1dPlan,
    input: Seq<i64>,
    weight: Seq<i64>,
    reason: Seq<char>,
) -> Result<int, ErrorView> {
    let len = input[2] + 2 * plan.padding - 2;
    if plan.stride == 1 && plan.dilation == 1 && input.len() == 3 && is_depthwise3(
        weight,
        plan.groups,
    ) && input[1] == plan.groups && i64::MIN <= len <= i64::MAX {
        Ok(len)
    } else {
        Err(ErrorView::Host("conv1d failed: "@ + reason))
    }
}

/// Decides what a convolution that the backend refused for `reason` comes to; `input` and
/// `weight` are the sizes of its tensors.
pub fn conv1d_fallback(
    plan: &Conv1dPlan,
    input: &Vec<i64>,
    weight: &Vec<i64>,
    reason: &str,
) -> (r: VmResult<i64>)
    ensures
        match r {
            Ok(len) => fallback_outcome(*plan, input@, weight@, reason@) == Ok::<int, ErrorView>(
                len as int,
            ),
            Err(e) => fallback_outcome(*plan, input@, weight@, reason@) == Err::<int, ErrorView>(
                e@,
            ),
        },
{
    if plan.stride == 1 && plan.dilation == 1 && input.len() == 3 && depthwise3(
        weight,
        plan.groups,
    ) && input[1] == plan.groups {
        let len: i128 = input[2] as i128 + 2 * (plan.padding as i128) - 2;
        if i64::MIN as i128 <= len && len <= i64::MAX as i128 {
            return Ok(len as i64);
        }
    }
    Err(host_error(text::join2("conv1d failed: ", reason).as_str()))
}

/// One step of a causal convolution: the state, the input, the kernel, and the number of
/// channels; `cached` says whether the taps of the kernel are known.
#[derive(Clone, Copy, Debug, PartialEq, Eq, Structural)]
pub struct Conv1dStepPlan {
    pub state: i64,
    pub input: i64,
    pub weight: i64,
    pub groups: i64,
    pub cached: bool,
}

/// Why the sizes of a state and an input do not go together.
pub open spec fn step_sizes(state: Seq<i64>, input: Seq<i64>) -> Result<i64, ErrorView> {
    if state.len() != 3 || input.len() != 3 {
        Err(step_expects())
    } else if state[0] != input[0] || state[1] != input[1] || state[2] != 2 || input[2] != 1 {
        Err(ErrorView::Host("conv1d_step state/input shapes are incompatible"@))
    } else {
        Ok(input[1])
    }
}

/// The message on tensors that are not what a step takes.
pub open spec fn step_expects() -> ErrorView {
    ErrorView::Host("conv1d_step expects state [B,C,2], input [B,C,1], weight [C,1,3]"@)
}

/// Whether the taps of a kernel are known, or why they cannot be taken.
pub open spec fn taps_outcome<T>(c: ContextView<T>, weight: i64, groups: i64) -> Result<
    bool,
    ErrorView,
> {
    if c.conv1d_step_weights.contains_key(weight) {
        Ok(true)
    } else {
        match context::tensor_outcome(c, weight) {
            Err(e) => Err(e),
            Ok(w) => if is_depthwise3(w.size@, groups) {
                Ok(false)
            } else {
                Err(step_expects())
            },
        }
    }
}

/// What one step of a causal convolution comes to.
pub open spec fn conv1d_step_outcome<T>(c: ContextView<T>, args: Seq<Value>) -> Result<
    Conv1dStepPlan,
    ErrorView,
> {
    match shapes::sizes_at(c, args, 0, "state"@) {
        Err(e) => Err(e),
        Ok((state, state_size)) => match shapes::sizes_at(c, args, 1, "input"@) {
            Err(e) => Err(e),
            Ok((input, input_size)) => match args::int_at(
                c.active_host_op,
                args,
                2,
                "weight"@,
            ) {
                Err(e) => Err(e),
                Ok(weight) => match step_sizes(state_size, input_size) {
                    Err(e) => Err(e),
                    Ok(groups) => match taps_outcome(c, weight, groups) {
                        Err(e) => Err(e),
                        Ok(cached) => Ok(
                            Conv1dStepPlan { state, input, weight, groups, cached },
                        ),
                    },
                },
            },
        },
    }
}

fn step_expects_error() -> (r: VmError)
    ensures
        r@ == step_expects(),
{
    host_error("conv1d_step expects state [B,C,2], input [B,C,1], weight [C,1,3]")
}

fn check_step_sizes(state: &Vec<i64>, input: &Vec<i64>) -> (r: VmResult<i64>)
    ensures
        match r {
            Ok(n) => step_sizes(state@, input@) == Ok::<i64, ErrorView>(n),
            Err(e) => step_sizes(state@, input@) == Err::<i64, ErrorView>(e@),
        },
{
    if state.len() != 3 || input.len() != 3 {
        return Err(step_expects_error());
    }
    if state[0] != input[0] || state[1] != input[1] || state[2] != 2 || input[2] != 1 {
        return Err(host_error("conv1d_step state/input shapes are incompatible"));
    }
    Ok(input[1])
}

/// Whether the taps of a kernel are known, or why they cannot be taken.
pub fn cached_conv1d_step_weights<T>(context: &TorchContext<T>, weight: i64, groups: i64) -> (r:
    VmResult<bool>)
    ensures
        match r {
            Ok(b) => taps_outcome(context@, weight, groups) == Ok::<bool, ErrorView>(b),
            Err(e) => taps_outcome(context@, weight, groups) == Err::<bool, ErrorView>(e@),
        },
{
    if context.conv1d_step_weights.contains(weight) {
        return Ok(true);
    }
    match context.tensor(weight) {
        Err(e) => Err(e),
        Ok(w) => if depthwise3(&w.size, groups) {
            Ok(false)
        } else {
            Err(step_expects_error())
        },
    }
}

/// Plans one step of a causal convolution.
pub fn nn_conv1d_step<T>(context: &TorchContext<T>, args: &[Value]) -> (r: VmResult<Conv1dStepPlan>)
    ensures
        match r {
            Ok(p) => conv1d_step_outcome(context@, args@) == Ok::<Conv1dStepPlan, ErrorView>(p),
            Err(e) => conv1d_step_outcome(context@, args@) == Err::<Conv1dStepPlan, ErrorView>(
                e@,
            ),
        },
{
    let (state, state_tensor) = match sized_arg(context, args, 0, "state") {
        Err(e) => {
            return Err(e);
        },
        Ok(pair) => pair,
    };
    let (input, input_tensor) = match sized_arg(context, args, 1, "input") {
        Err(e) => {
            return Err(e);
        },
        Ok(pair) => pair,
    };
    let weight: i64 = match args::int_arg(&context.active_host_op, args, 2, "weight") {
        Err(e) => {
            return Err(e);
        },
        Ok(h) => h,
    };
    match check_step_sizes(&state_tensor.size, &input_tensor.size) {
        Err(e) => Err(e),
        Ok(groups) => match cached_conv1d_step_weights(context, weight, groups) {
            Err(e) => Err(e),
            Ok(cached) => Ok(Conv1dStepPlan { state, input, weight, groups, cached }),
        },
    }
}

/// Keeps the taps of a kernel.
pub fn keep_conv1d_step_weights<T>(
    context: &mut TorchContext<T>,
    weight: i64,
    taps: Conv1dStepWeights<T>,
)
    requires
        old(context).wf(),
    ensures
        final(context).wf(),
        final(context)@ == (ContextView {
            conv1d_step_weights: old(context)@.conv1d_step_weights.insert(weight, taps),
            ..old(context)@
        }),
{
    context.conv1d_step_weights.insert(weight, taps);
}

/// A convolution over two dimensions: its tensor, the names of its weights, and its padding,
/// which is done beforehand where it reflects.
#[derive(Debug)]
pub struct Conv2dPlan {
    pub input: i64,
    pub prefix: String,
    pub weight: String,
    pub bias: Option<String>,
    pub stride: i64,
    pub reflect: Option<i64>,
    pub padding: i64,
}

/// The model of a [`Conv2dPlan`].
pub struct Conv2dView {
    pub input: i64,
    pub prefix: Seq<char>,
    pub weight: Seq<char>,
    pub bias: Option<Seq<char>>,
    pub stride: i64,
    pub reflect: Option<i64>,
    pub padding: i64,
}

impl View for Conv2dPlan {
    type V = Conv2dView;

    open spec fn view(&self) -> Conv2dView {
        Conv2dView {
            input: self.input,
            prefix: self.prefix@,
            weight: self.weight@,
            bias: context::opt_text(self.bias),
            stride: self.stride,
            reflect: self.reflect,
            padding: self.padding,
        }
    }
}

/// The name of a weight that has to be there.
pub open spec fn named_weight<T>(c: ContextView<T>, prefix: Seq<char>, suffix: Seq<char>) -> Result<
    Seq<char>,
    ErrorView,
> {
    match context::weight_outcome(c, prefix + suffix) {
        Err(e) => Err(e),
        Ok(_) => Ok(prefix + suffix),
    }
}

fn find_named_weight<T>(context: &TorchContext<T>, prefix: &str, suffix: &str) -> (r: VmResult<
    String,
>)
    ensures
        match r {
            Ok(name) => named_weight(context@, prefix@, suffix@) == Ok::<Seq<char>, ErrorView>(
                name@,
            ),
            Err(e) => named_weight(context@, prefix@, suffix@) == Err::<Seq<char>, ErrorView>(
                e@,
            ),
        },
{
    let name: String = text::join2(prefix, suffix);
    match context.weight(name.as_str()) {
        Err(e) => Err(e),
        Ok(_) => Ok(name),
    }
}

/// What a convolution over two dimensions comes to.
pub open spec fn conv2d_outcome<T>(c: ContextView<T>, args: Seq<Value>) -> Result<
    Conv2dView,
    ErrorView,
> {
    let op = c.active_host_op;
    match args::tensor_at(c, args, 0, "tensor"@) {
        Err(e) => Err(e),
        Ok(input) => match args::string_at(op, args, 1, "weight prefix"@) {
            Err(e) => Err(e),
            Ok(prefix) => match args::int_at(op, args, 2, "stride"@) {
                Err(e) => Err(e),
                Ok(stride) => match args::int_at(op, args, 3, "padding"@) {
                    Err(e) => Err(e),
                    Ok(padding) => match args::bool_at(op, args, 4, "reflect"@) {
                        Err(e) => Err(e),
                        Ok(reflect) => match args::bool_at(op, args, 5, "bias"@) {
                            Err(e) => Err(e),
                            Ok(has_bias) => conv2d_weights(
                                c,
                                input,
                                prefix,
                                stride,
                                padding,
                                reflect,
                                has_bias,
                            ),
                        },
                    },
                },
            },
        },
    }
}

/// What a convolution over two dimensions with these arguments comes to.
pub open spec fn conv2d_weights<T>(
    c: ContextView<T>,
    input: i64,
    prefix: Seq<char>,
    stride: i64,
    padding: i64,
    reflect: bool,
    has_bias: bool,
) -> Result<Conv2dView, ErrorView> {
    match named_weight(c, prefix, ".weight"@) {
        Err(e) => Err(e),
        Ok(weight) => {
            let reflects = reflect && padding > 0;
            let plan = Conv2dView {
                input,
                prefix,
                weight,
                bias: None,
                stride,
                reflect: if reflects {
                    Some(padding)
                } else {
                    None
                },
                padding: if reflects {
                    0
                } else {
                    padding
                },
            };
            if has_bias {
                match named_weight(c, prefix, ".bias"@) {
                    Err(e) => Err(e),
                    Ok(bias) => Ok(Conv2dView { bias: Some(bias), ..plan }),
                }
            } else {
                Ok(plan)
            }
        },
    }
}

/// Plans a convolution over two dimensions.
pub fn nn_conv2d<T>(context: &TorchContext<T>, args: &[Value]) -> (r: VmResult<Conv2dPlan>)
    ensures
        match r {
            Ok(p) => conv2d_outcome(context@, args@) == Ok::<Conv2dView, ErrorView>(p@),
            Err(e) => conv2d_outcome(context@, args@) == Err::<Conv2dView, ErrorView>(e@),
        },
{
    let op: &Option<String> = &context.active_host_op;
    let input: i64 = match args::tensor_arg(context, args, 0, "tensor") {
        Err(e) => {
            return Err(e);
        },
        Ok(h) => h,
    };
    let prefix: &str = match args::string_arg(op, args, 1, "weight prefix") {
        Err(e) => {
            return Err(e);
        },
        Ok(s) => s,
    };
    let stride: i64 = match args::int_arg(op, args, 2, "stride") {
        Err(e) => {
            return Err(e);
        },
        Ok(n) => n,
    };
    let padding: i64 = match args::int_arg(op, args, 3, "padding") {
        Err(e) => {
            return Err(e);
        },
        Ok(n) => n,
    };
    let reflect: bool = match args::bool_arg(op, args, 4, "reflect") {
        Err(e) => {
            return Err(e);
        },
        Ok(b) => b,
    };
    let has_bias: bool = match args::bool_arg(op, args, 5, "bias") {
        Err(e) => {
            return Err(e);
        },
        Ok(b) => b,
    };
    let weight: String = match find_named_weight(context, prefix, ".weight") {
        Err(e) => {
            return Err(e);
        },
        Ok(name) => name,
    };
    let bias: Option<String> = if has_bias {
        match find_named_weight(context, prefix, ".bias") {
            Err(e) => {
                return Err(e);
            },
            Ok(name) => Some(name),
        }
    } else {
        None
    };
    let reflects: bool = reflect && padding > 0;
    Ok(
        Conv2dPlan {
            input,
            prefix: prefix.to_owned(),
            weight,
            bias,
            stride,
            reflect: if reflects {
                Some(padding)
            } else {
                None
            },
            padding: if reflects {
                0
            } else {
                padding
            },
        },
    )
}

/// A layer over a tensor and weights that share a prefix.
#[derive(Debug)]
pub struct WeightedPlan {
    pub input: i64,
    pub prefix: String,
    pub weights: Vec<String>,
}

/// The model of a [`WeightedPlan`].
pub type WeightedView = (i64, Seq<char>, Seq<Seq<char>>);

/// The first `n` names of weights that all have to be there.
pub open spec fn named_weights<T>(
    c: ContextView<T>,
    prefix: Seq<char>,
    suffixes: Seq<Seq<char>>,
    n: nat,
) -> Result<Seq<Seq<char>>, ErrorView>
    decreases n,
{
    if n == 0 {
        Ok(Seq::empty())
    } else {
        match named_weights(c, prefix, suffixes, (n - 1) as nat) {
            Err(e) => Err(e),
            Ok(names) => match named_weight(c, prefix, suffixes[n - 1]) {
                Err(e) => Err(e),
                Ok(name) => Ok(names.push(name)),
            },
        }
    }
}

/// What a layer over a tensor and weights that share a prefix comes to.
pub open spec fn weighted_outcome<T>(
    c: ContextView<T>,
    args: Seq<Value>,
    suffixes: Seq<Seq<char>>,
) -> Result<WeightedView, ErrorView> {
    match args::tensor_at(c, args, 0, "tensor"@) {
        Err(e) => Err(e),
        Ok(input) => match args::string_at(c.active_host_op, args, 1, "weight prefix"@) {
            Err(e) => Err(e),
            Ok(prefix) => match named_weights(c, prefix, suffixes, suffixes.len()) {
                Err(e) => Err(e),
                Ok(names) => Ok((input, prefix, names)),
            },
        },
    }
}

proof fn lemma_named_error<T>(
    c: ContextView<T>,
    prefix: Seq<char>,
    suffixes: Seq<Seq<char>>,
    n: nat,
    m: nat,
)
    requires
        n <= m,
        named_weights(c, prefix, suffixes, n) is Err,
    ensures
        named_weights(c, prefix, suffixes, m) == named_weights(c, prefix, suffixes, n),
    decreases m,
{
    if n < m {
        lemma_named_error(c, prefix, suffixes, n, (m - 1) as nat);
    }
}

fn plan_weighted<T>(context: &TorchContext<T>, args: &[Value], suffixes: &Vec<String>) -> (r:
    VmResult<WeightedPlan>)
    ensures
        match r {
            Ok(p) => weighted_outcome(context@, args@, text::views(suffixes@)) == Ok::<
                WeightedView,
                ErrorView,
            >((p.input, p.prefix@, text::views(p.weights@))),
            Err(e) => weighted_outcome(context@, args@, text::views(suffixes@)) == Err::<
                WeightedView,
                ErrorView,
            >(e@),
        },
{
    let input: i64 = match args::tensor_arg(context, args, 0, "tensor") {
        Err(e) => {
            return Err(e);
        },
        Ok(h) => h,
    };
    let prefix: &str = match args::string_arg(
        &context.active_host_op,
        args,
        1,
        "weight prefix",
    ) {
        Err(e) => {
            return Err(e);
        },
        Ok(s) => s,
    };
    let ghost models = text::views(suffixes@);
    let mut names: Vec<String> = Vec::new();
    let mut i: usize = 0;
    assert(text::views(names@) =~= Seq::<Seq<char>>::empty());
    while i < suffixes.len()
        invariant
            i <= suffixes@.len(),
            models == text::views(suffixes@),
            args::tensor_at(context@, args@, 0, "tensor"@) == Ok::<i64, ErrorView>(input),
            args::string_at(context@.active_host_op, args@, 1, "weight prefix"@) == Ok::<
                Seq<char>,
                ErrorView,
            >(prefix@),
            named_weights(context@, prefix@, models, i as nat) == Ok::<
                Seq<Seq<char>>,
                ErrorView,
            >(text::views(names@)),
        decreases suffixes@.len() - i,
    {
        assert(models[i as int] == suffixes@[i as int]@);
        match find_named_weight(context, prefix, suffixes[i].as_str()) {
            Err(e) => {
                proof {
                    lemma_named_error(
                        context@,
                        prefix@,
                        models,
                        (i + 1) as nat,
                        suffixes@.len(),
                    );
                }
                return Err(e);
            },
            Ok(name) => {
                let ghost before = text::views(names@);
                names.push(name);
                assert(text::views(names@) =~= before.push(name@));
            },
        }
        i = i + 1;
    }
    Ok(WeightedPlan { input, prefix: prefix.to_owned(), weights: names })
}

/// The weights of a transposed convolution.
pub open spec fn conv_transpose_suffixes() -> Seq<Seq<char>> {
    seq![".weight"@, ".bias"@]
}

/// Plans a transposed convolution over two dimensions.
pub fn nn_conv_transpose2d<T>(context: &TorchContext<T>, args: &[Value]) -> (r: VmResult<
    WeightedPlan,
>)
    ensures
        match r {
            Ok(p) => weighted_outcome(context@, args@, conv_transpose_suffixes()) == Ok::<
                WeightedView,
                ErrorView,
            >((p.input, p.prefix@, text::views(p.weights@))),
            Err(e) => weighted_outcome(context@, args@, conv_transpose_suffixes()) == Err::<
                WeightedView,
                ErrorView,
            >(e@),
        },
{
    let mut suffixes: Vec<String> = Vec::new();
    suffixes.push(".weight".to_owned());
    suffixes.push(".bias".to_owned());
    assert(text::views(suffixes@) =~= conv_transpose_suffixes());
    plan_weighted(context, args, &suffixes)
}

/// The weights of a batch norm.
pub open spec fn batch_norm_suffixes() -> Seq<Seq<char>> {
    seq![".weight"@, ".bias"@, ".running_mean"@, ".running_var"@]
}

/// Plans a batch norm over two dimensions.
pub fn nn_batch_norm2d<T>(context: &TorchContext<T>, args: &[Value]) -> (r: VmResult<WeightedPlan>)
    ensures
        match r {
            Ok(p) => weighted_outcome(context@, args@, batch_norm_suffixes()) == Ok::<
                WeightedView,
                ErrorView,
            >((p.input, p.prefix@, text::views(p.weights@))),
            Err(e) => weighted_outcome(context@, args@, batch_norm_suffixes()) == Err::<
                WeightedView,
                ErrorView,
            >(e@),
        },
{
    let mut suffixes: Vec<String> = Vec::new();
    suffixes.push(".weight".to_owned());
    suffixes.push(".bias".to_owned());
    suffixes.push(".running_mean".to_owned());
    suffixes.push(".running_var".to_owned());
    assert(text::views(suffixes@) =~= batch_norm_suffixes());
    plan_weighted(context, args, &suffixes)
}

/// The error on a layer that the backend refused: its name, its prefix, and the reason.
pub fn layer_error(layer: &str, prefix: &str, reason: &str) -> (r: VmError)
    ensures
        r@ == ErrorView::Host(layer@ + " '"@ + prefix@ + "': "@ + reason@),
{
    let mut message: String = text::join3(layer, " '", prefix);
    message.append("': ");
    message.append(reason);
    host_error(message.as_str())
}

/// A tensor that may be left out is left out with the handle zero, and else is the one of the
/// handle.
pub proof fn law_optional_tensor<T>(c: ContextView<T>, handle: i64)
    requires
        c.wf(),
    ensures
        handle == 0 ==> optional_tensor(c, handle) == Ok::<Option<i64>, ErrorView>(None),
        handle != 0 ==> (optional_tensor(c, handle) is Ok <==> c.tensors.contains_key(handle)),
        optional_tensor(c, handle) matches Ok(Some(h)) ==> h == handle && h != 0,
{
}

/// Whether the place `i` holds the handle of a tensor that is there.
pub open spec fn is_tensor<T>(c: ContextView<T>, args: Seq<Value>, i: int, handle: i64) -> bool {
    i < args.len() && args[i] == Value::Int(handle) && c.tensors.contains_key(handle)
}

/// Whether the place `i` holds the handle of a tensor that is there, or zero for none.
pub open spec fn is_optional<T>(
    c: ContextView<T>,
    args: Seq<Value>,
    i: int,
    handle: Option<i64>,
) -> bool {
    match handle {
        Some(h) => is_tensor(c, args, i, h) && h != 0,
        None => i < args.len() && args[i] == Value::Int(0),
    }
}

/// Whether the place `i` holds a whole number.
pub open spec fn is_number(args: Seq<Value>, i: int, n: i64) -> bool {
    i < args.len() && args[i] == Value::Int(n)
}

/// A linear layer works on the input, the weight and the bias that were given, each as what it was
/// given for. A single row without a bias may be multiplied as a vector: its length is that of the
/// row, and the result has a number for each row of the weight.
pub proof fn law_linear_plan<T>(c: ContextView<T>, args: Seq<Value>, vectors: bool)
    requires
        c.wf(),
    ensures
        linear_outcome(c, args, vectors) matches Ok((input, weight, bias, method)) ==> {
            &&& is_tensor(c, args, 0, input)
            &&& is_tensor(c, args, 1, weight)
            &&& is_optional(c, args, 2, bias)
            &&& bias is Some || !vectors ==> method is Product
            &&& method matches MethodView::MatVec(len, out) ==> {
                let x = c.tensors[input].size@;
                let w = c.tensors[weight].size@;
                &&& vectors && bias is None
                &&& w.len() > 0
                &&& out.len() == x.len()
                &&& len == x[x.len() - 1]
                &&& out[out.len() - 1] == w[0]
                &&& forall|i: int| 0 <= i < x.len() - 1 ==> #[trigger] x[i] == 1 && out[i] == 1
                &&& 2 <= x.len() <= 3
            }
        },
        forall|input: i64, weight: i64, bias: Option<i64>|
            #![trigger is_tensor(c, args, 0, input),
                is_tensor(c, args, 1, weight),
                is_optional(c, args, 2, bias)]
            is_tensor(c, args, 0, input) && is_tensor(c, args, 1, weight) && is_optional(
                c,
                args,
                2,
                bias,
            ) ==> linear_outcome(c, args, vectors) is Ok,
{
}

/// A layer norm works on the tensors, the number and the size that were given, each as what it was
/// given for.
pub proof fn law_layer_norm_plan<T>(c: ContextView<T>, args: Seq<Value>)
    requires
        c.wf(),
    ensures
        layer_norm_outcome(c, args) matches Ok((input, weight, bias, eps, size)) ==> {
            &&& is_tensor(c, args, 0, input)
            &&& is_optional(c, args, 1, weight)
            &&& is_optional(c, args, 2, bias)
            &&& match eps {
                FloatArgView::Int(n) => is_number(args, 3, n),
                FloatArgView::Float(f) => 3 < args.len() && args[3] is Float && args[3]->Float_0@
                    == f,
            }
            &&& is_number(args, 4, size)
        },
        forall|input: i64, weight: Option<i64>, bias: Option<i64>, n: i64, size: i64|
            #![trigger is_tensor(c, args, 0, input),
                is_optional(c, args, 1, weight),
                is_optional(c, args, 2, bias),
                is_number(args, 3, n),
                is_number(args, 4, size)]
            is_tensor(c, args, 0, input) && is_optional(c, args, 1, weight) && is_optional(
                c,
                args,
                2,
                bias,
            ) && is_number(args, 3, n) && is_number(args, 4, size) ==> layer_norm_outcome(
                c,
                args,
            ) is Ok,
{
}

/// A gated linear layer works on the tensors that were given, each as what it was given for, and
/// halves the last size of its input.
pub proof fn law_swiglu_linear_plan<T>(c: ContextView<T>, args: Seq<Value>)
    requires
        c.wf(),
    ensures
        swiglu_linear_outcome(c, args) matches Ok((input, weight, half, bias)) ==> {
            let size = c.tensors[input].size@;
            &&& is_tensor(c, args, 0, input)
            &&& is_tensor(c, args, 1, weight)
            &&& is_optional(c, args, 2, bias)
            &&& size.len() > 0 && half + half == size[size.len() - 1]
        },
        forall|input: i64, weight: i64, bias: Option<i64>|
            #![trigger is_tensor(c, args, 0, input),
                is_tensor(c, args, 1, weight),
                is_optional(c, args, 2, bias)]
            is_tensor(c, args, 0, input) && is_tensor(c, args, 1, weight) && is_optional(
                c,
                args,
                2,
                bias,
            ) && c.tensors[input].size@.len() > 0 && c.tensors[input].size@.last() % 2 == 0
                ==> swiglu_linear_outcome(c, args) is Ok,
{
}

/// A rotation works on the tensors that were given, each as what it was given for, and on the two
/// halves of the last size; for a query and a key, it tells their heads apart.
pub proof fn law_rotation_plans<T>(c: ContextView<T>, args: Seq<Value>)
    requires
        c.wf(),
    ensures
        apply_rope_outcome(c, args) matches Ok(p) ==> {
            let size = c.tensors[p.input].size@;
            &&& is_tensor(c, args, 0, p.input)
            &&& is_tensor(c, args, 1, p.cos)
            &&& is_tensor(c, args, 2, p.sin)
            &&& size.len() > 0
            &&& size.last() >= 0 ==> p.half == size.last() / 2
        },
        rope_pair_outcome(c, args) matches Ok(p) ==> {
            let query = c.tensors[p.query].size@;
            let key = c.tensors[p.key].size@;
            &&& is_tensor(c, args, 0, p.query)
            &&& is_tensor(c, args, 1, p.key)
            &&& is_tensor(c, args, 2, p.cos)
            &&& is_tensor(c, args, 3, p.sin)
            &&& query.len() >= 2 && key.len() >= 2
            &&& p.query_heads == query[1]
            &&& p.key_heads == key[1]
            &&& query.len() > 2 && query.last() >= 0 ==> p.half == query.last() / 2
        },
        forall|input: i64, cos: i64, sin: i64|
            #![trigger is_tensor(c, args, 0, input),
                is_tensor(c, args, 1, cos),
                is_tensor(c, args, 2, sin)]
            is_tensor(c, args, 0, input) && is_tensor(c, args, 1, cos) && is_tensor(
                c,
                args,
                2,
                sin,
            ) && c.tensors[input].size@.len() > 0 ==> apply_rope_outcome(c, args) is Ok,
        forall|query: i64, key: i64, cos: i64, sin: i64|
            #![trigger is_tensor(c, args, 0, query),
                is_tensor(c, args, 1, key),
                is_tensor(c, args, 2, cos),
                is_tensor(c, args, 3, sin)]
            is_tensor(c, args, 0, query) && is_tensor(c, args, 1, key) && is_tensor(
                c,
                args,
                2,
                cos,
            ) && is_tensor(c, args, 3, sin) && c.tensors[query].size@.len() >= 2
                && c.tensors[key].size@.len() >= 2 ==> rope_pair_outcome(c, args) is Ok,
{
}

/// A convolution along a line works on the tensors and the numbers that were given, each as what it
/// was given for, in the type of its input.
pub proof fn law_conv1d_plan<T>(c: ContextView<T>, args: Seq<Value>)
    requires
        c.wf(),
    ensures
        conv1d_outcome(c, args) matches Ok(p) ==> {
            &&& is_tensor(c, args, 0, p.input)
            &&& is_tensor(c, args, 1, p.weight)
            &&& is_optional(c, args, 2, p.bias)
            &&& is_number(args, 3, p.stride)
            &&& is_number(args, 4, p.padding)
            &&& is_number(args, 5, p.dilation)
            &&& is_number(args, 6, p.groups)
            &&& p.kind == c.tensors[p.input].kind
        },
        forall|input: i64, weight: i64, bias: Option<i64>, a: i64, b: i64, d: i64, e: i64|
            #![trigger is_tensor(c, args, 0, input),
                is_tensor(c, args, 1, weight),
                is_optional(c, args, 2, bias),
                is_number(args, 3, a),
                is_number(args, 4, b),
                is_number(args, 5, d),
                is_number(args, 6, e)]
            is_tensor(c, args, 0, input) && is_tensor(c, args, 1, weight) && is_optional(
                c,
                args,
                2,
                bias,
            ) && is_number(args, 3, a) && is_number(args, 4, b) && is_number(args, 5, d)
                && is_number(args, 6, e) ==> conv1d_outcome(c, args) is Ok,
{
}

/// The convolution that stands in for one that failed is the one of three taps for each channel,
/// and its result is as long as that of the one that failed.
pub proof fn law_conv1d_stand_in(
    plan: Conv1dPlan,
    input: Seq<i64>,
    weight: Seq<i64>,
    reason: Seq<char>,
)
    ensures
        fallback_outcome(plan, input, weight, reason) matches Ok(len) ==> {
            &&& plan.stride == 1 && plan.dilation == 1
            &&& input.len() == 3 && input[1] == plan.groups
            &&& weight.len() == 3 && weight[0] == plan.groups && weight[1] == 1 && weight[2] == 3
            &&& len + 2 == input[2] + plan.padding + plan.padding
        },
        fallback_outcome(plan, input, weight, reason) matches Err(e) ==> e == ErrorView::Host(
            "conv1d failed: "@ + reason,
        ),
{
}

/// A step of a convolution works on the state and the input that were given, of the same batch and
/// channels, with the taps of the weight, which it takes apart once.
pub proof fn law_conv1d_step_plan<T>(c: ContextView<T>, args: Seq<Value>)
    requires
        c.wf(),
    ensures
        conv1d_step_outcome(c, args) matches Ok(p) ==> {
            let state = c.tensors[p.state].size@;
            let input = c.tensors[p.input].size@;
            &&& is_tensor(c, args, 0, p.state)
            &&& is_tensor(c, args, 1, p.input)
            &&& is_number(args, 2, p.weight)
            &&& state.len() == 3 && input.len() == 3
            &&& state[0] == input[0] && state[1] == input[1] && state[2] == 2 && input[2] == 1
            &&& p.groups == input[1]
            &&& p.cached == c.conv1d_step_weights.contains_key(p.weight)
            &&& !p.cached ==> c.tensors.contains_key(p.weight) && c.tensors[p.weight].size@
                == seq![p.groups, 1i64, 3i64]
        },
{
}

/// A convolution of a picture works on the tensor and the numbers that were given, with the weight
/// and the bias of its own prefix; it pads by reflection, or else with zeros, and by as much as
/// asked for.
pub proof fn law_conv2d_plan<T>(c: ContextView<T>, args: Seq<Value>)
    requires
        c.wf(),
    ensures
        conv2d_outcome(c, args) matches Ok(p) ==> {
            &&& is_tensor(c, args, 0, p.input)
            &&& args.len() >= 6
            &&& args[1] is String && args[1]->String_0@ == p.prefix
            &&& is_number(args, 2, p.stride)
            &&& args[3] is Int && args[4] is Bool && args[5] is Bool
            &&& p.weight == p.prefix + ".weight"@ && c.weights.contains_key(p.weight)
            &&& args[5]->Bool_0 ==> p.bias == Some(p.prefix + ".bias"@) && c.weights.contains_key(
                p.prefix + ".bias"@,
            )
            &&& !args[5]->Bool_0 ==> p.bias is None
            &&& args[4]->Bool_0 && args[3]->Int_0 > 0 ==> p.reflect == Some(args[3]->Int_0)
                && p.padding == 0
            &&& !(args[4]->Bool_0 && args[3]->Int_0 > 0) ==> p.reflect is None && p.padding
                == args[3]->Int_0
        },
        forall|input: i64|
            #![trigger is_tensor(c, args, 0, input)]
            is_tensor(c, args, 0, input) && args.len() >= 6 && args[1] is String && args[2] is Int
                && args[3] is Int && args[4] is Bool && args[5] is Bool && c.weights.contains_key(
                args[1]->String_0@ + ".weight"@,
            ) && (args[5]->Bool_0 ==> c.weights.contains_key(args[1]->String_0@ + ".bias"@))
                ==> conv2d_outcome(c, args) is Ok,
{
}

/// The weights of a layer are those of its own prefix, in their order, and all of them are there.
pub proof fn law_layer_weights<T>(
    c: ContextView<T>,
    prefix: Seq<char>,
    suffixes: Seq<Seq<char>>,
    n: nat,
)
    requires
        n <= suffixes.len(),
    ensures
        named_weights(c, prefix, suffixes, n) is Ok <==> forall|i: int|
            0 <= i < n ==> c.weights.contains_key(prefix + #[trigger] suffixes[i]),
        named_weights(c, prefix, suffixes, n) matches Ok(names) ==> {
            &&& names.len() == n
            &&& forall|i: int| 0 <= i < n ==> #[trigger] names[i] == prefix + suffixes[i]
        },
    decreases n,
{
    if n > 0 {
        law_layer_weights(c, prefix, suffixes, (n - 1) as nat);
        if named_weights(c, prefix, suffixes, n) is Ok {
            assert forall|i: int| 0 <= i < n implies c.weights.contains_key(
                prefix + #[trigger] suffixes[i],
            ) by {
                if i < n - 1 {
                }
            }
        } else if named_weights(c, prefix, suffixes, (n - 1) as nat) is Ok {
            assert(!c.weights.contains_key(prefix + suffixes[n - 1]));
        }
    }
}

/// A layer with weights works on the tensor that was given, with its weights in order: a transposed
/// convolution has a weight and a bias, a batch norm its running mean and variance besides.
pub proof fn law_weighted_plan<T>(c: ContextView<T>, args: Seq<Value>)
    requires
        c.wf(),
    ensures
        weighted_outcome(c, args, conv_transpose_suffixes()) matches Ok((input, prefix, names)) ==> {
            &&& is_tensor(c, args, 0, input)
            &&& 1 < args.len() && args[1] is String && args[1]->String_0@ == prefix
            &&& names.len() == 2
            &&& names[0] == prefix + ".weight"@
            &&& names[1] == prefix + ".bias"@
        },
        weighted_outcome(c, args, batch_norm_suffixes()) matches Ok((input, prefix, names)) ==> {
            &&& is_tensor(c, args, 0, input)
            &&& 1 < args.len() && args[1] is String && args[1]->String_0@ == prefix
            &&& names.len() == 4
            &&& names[0] == prefix + ".weight"@
            &&& names[1] == prefix + ".bias"@
            &&& names[2] == prefix + ".running_mean"@
            &&& names[3] == prefix + ".running_var"@
        },
{
    if let Ok((_, prefix, _)) = weighted_outcome(c, args, conv_transpose_suffixes()) {
        law_layer_weights(c, prefix, conv_transpose_suffixes(), 2);
    }
    if let Ok((_, prefix, _)) = weighted_outcome(c, args, batch_norm_suffixes()) {
        law_layer_weights(c, prefix, batch_norm_suffixes(), 4);
    }
}

} // verus!
