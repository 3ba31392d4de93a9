//! The tensor operations whose arguments need no more than to be read.
use vstd::prelude::*;

use crate::args;
use crate::args::{decode_args, Arg, ArgKind, ArgView, Param, ParamView};
use crate::context::TorchContext;
use crate::value::{ErrorView, Value, VmResult};

verus! {

/// An operation that the executor performs on the arguments as they are.
#[derive(Clone, Copy, Debug, PartialEq, Eq, Structural)]
pub enum TensorOp {
    ToFloat,
    ToBfloat16,
    OnesLike,
    ZerosLike,
    ZerosLikeInt,
    Rsqrt,
    Neg,
    Cos,
    Sin,
    Relu,
    Sigmoid,
    Silu,
    Contiguous,
    Real,
    Imag,
    FftRfftn2,
    AvgPool2d2,
    Shape,
    Add,
    Sub,
    Mul,
    Matmul,
    AddScalar,
    MulScalar,
    DivScalar,
    PowScalar,
    Arange,
    ArangeStart,
    CausalMask,
    MeanDim,
    Softmax,
    Unsqueeze,
    ArgmaxInt,
    Argmax,
    ArgmaxToken,
    MaskedFill,
    Cat2,
    Stack2,
    Narrow,
    Transpose,
    RepeatInterleave,
    PadReflect2d,
    Gelu,
    View2,
    Permute3,
    View3,
    Permute4,
    View4,
    Permute5,
    View5,
    Select,
    Complex,
    FftIrfftn2,
    SaveSafetensors,
    LoadSafetensors,
    Embedding,
    RmsNorm,
    AddRmsNorm,
    ScaledDotProductAttention,
    ScaledDotProductAttentionMasked,
    ScatterImageEmbeddings,
    AppendToken,
    AppendTokenTensor,
    PushGeneratedTokenTensor,
    Lfm2VlPatches,
}

/// The parameters `tensor`.
#[verifier::opaque]
pub open spec fn one_tensor() -> Seq<ParamView> {
    seq![(ArgKind::Tensor, "tensor"@)]
}

/// The parameters `left`, `right`.
#[verifier::opaque]
pub open spec fn two_tensors() -> Seq<ParamView> {
    seq![(ArgKind::Tensor, "left"@), (ArgKind::Tensor, "right"@)]
}

/// The parameters `tensor`, `value`.
#[verifier::opaque]
pub open spec fn tensor_and_value() -> Seq<ParamView> {
    seq![(ArgKind::Tensor, "tensor"@), (ArgKind::Float, "value"@)]
}

/// The parameters `end`.
#[verifier::opaque]
pub open spec fn range_end() -> Seq<ParamView> {
    seq![(ArgKind::Int, "end"@)]
}

/// The parameters `start`, `end`.
#[verifier::opaque]
pub open spec fn range_bounds() -> Seq<ParamView> {
    seq![(ArgKind::Int, "start"@), (ArgKind::Int, "end"@)]
}

/// The parameters `seq_len`.
#[verifier::opaque]
pub open spec fn mask_length() -> Seq<ParamView> {
    seq![(ArgKind::Int, "seq_len"@)]
}

/// The parameters `tensor`, `dim`, `keepdim`.
#[verifier::opaque]
pub open spec fn mean_over() -> Seq<ParamView> {
    seq![(ArgKind::Tensor, "tensor"@), (ArgKind::Int, "dim"@), (ArgKind::Bool, "keepdim"@)]
}

/// The parameters `tensor`, `dim`.
#[verifier::opaque]
pub open spec fn along_dim() -> Seq<ParamView> {
    seq![(ArgKind::Tensor, "tensor"@), (ArgKind::Int, "dim"@)]
}

/// The parameters `tensor`, `mask`, `value`.
#[verifier::opaque]
pub open spec fn fill_where() -> Seq<ParamView> {
    seq![(ArgKind::Tensor, "tensor"@), (ArgKind::Tensor, "mask"@), (ArgKind::Float, "value"@)]
}

/// The parameters `left`, `right`, `dim`.
#[verifier::opaque]
pub open spec fn joined_along() -> Seq<ParamView> {
    seq![(ArgKind::Tensor, "left"@), (ArgKind::Tensor, "right"@), (ArgKind::Int, "dim"@)]
}

/// The parameters `tensor`, `dim`, `start`, `len`.
#[verifier::opaque]
pub open spec fn narrowed() -> Seq<ParamView> {
    seq![
        (ArgKind::Tensor, "tensor"@),
        (ArgKind::Int, "dim"@),
        (ArgKind::Int, "start"@),
        (ArgKind::Int, "len"@),
    ]
}

/// The parameters `tensor`, `dim0`, `dim1`.
#[verifier::opaque]
pub open spec fn swapped_dims() -> Seq<ParamView> {
    seq![(ArgKind::Tensor, "tensor"@), (ArgKind::Int, "dim0"@), (ArgKind::Int, "dim1"@)]
}

/// The parameters `tensor`, `repeats`, `dim`.
#[verifier::opaque]
pub open spec fn repeated_along() -> Seq<ParamView> {
    seq![(ArgKind::Tensor, "tensor"@), (ArgKind::Int, "repeats"@), (ArgKind::Int, "dim"@)]
}

/// The parameters `tensor`, `left`, `right`, `top`, `bottom`.
#[verifier::opaque]
pub open spec fn reflected() -> Seq<ParamView> {
    seq![
        (ArgKind::Tensor, "tensor"@),
        (ArgKind::Int, "left"@),
        (ArgKind::Int, "right"@),
        (ArgKind::Int, "top"@),
        (ArgKind::Int, "bottom"@),
    ]
}

/// The parameters `tensor`, `approximate`.
#[verifier::opaque]
pub open spec fn gelu_kind() -> Seq<ParamView> {
    seq![(ArgKind::Tensor, "tensor"@), (ArgKind::Text, "approximate"@)]
}

/// The parameters `tensor`, `d0`, `d1`.
#[verifier::opaque]
pub open spec fn shape2() -> Seq<ParamView> {
    seq![(ArgKind::Tensor, "tensor"@), (ArgKind::Int, "d0"@), (ArgKind::Int, "d1"@)]
}

/// The parameters `tensor`, `d0`, `d1`, `d2`.
#[verifier::opaque]
pub open spec fn shape3() -> Seq<ParamView> {
    seq![
        (ArgKind::Tensor, "tensor"@),
        (ArgKind::Int, "d0"@),
        (ArgKind::Int, "d1"@),
        (ArgKind::Int, "d2"@),
    ]
}

/// The parameters `tensor`, `d0`, `d1`, `d2`, `d3`.
#[verifier::opaque]
pub open spec fn shape4() -> Seq<ParamView> {
    seq![
        (ArgKind::Tensor, "tensor"@),
        (ArgKind::Int, "d0"@),
        (ArgKind::Int, "d1"@),
        (ArgKind::Int, "d2"@),
        (ArgKind::Int, "d3"@),
    ]
}

/// The parameters `tensor`, `d0`, `d1`, `d2`, `d3`, `d4`.
#[verifier::opaque]
pub open spec fn shape5() -> Seq<ParamView> {
    seq![
        (ArgKind::Tensor, "tensor"@),
        (ArgKind::Int, "d0"@),
        (ArgKind::Int, "d1"@),
        (ArgKind::Int, "d2"@),
        (ArgKind::Int, "d3"@),
        (ArgKind::Int, "d4"@),
    ]
}

/// The parameters `tensor`, `dim`, `index`.
#[verifier::opaque]
pub open spec fn selected() -> Seq<ParamView> {
    seq![(ArgKind::Tensor, "tensor"@), (ArgKind::Int, "dim"@), (ArgKind::Int, "index"@)]
}

/// The parameters `real`, `imag`.
#[verifier::opaque]
pub open spec fn complex_parts() -> Seq<ParamView> {
    seq![(ArgKind::Tensor, "real"@), (ArgKind::Tensor, "imag"@)]
}

/// The parameters `tensor`, `height`, `width`.
#[verifier::opaque]
pub open spec fn inverse_size() -> Seq<ParamView> {
    seq![(ArgKind::Tensor, "tensor"@), (ArgKind::Int, "height"@), (ArgKind::Int, "width"@)]
}

/// The parameters `tensor`, `path`, `name`.
#[verifier::opaque]
pub open spec fn saved_tensor() -> Seq<ParamView> {
    seq![(ArgKind::Tensor, "tensor"@), (ArgKind::Text, "path"@), (ArgKind::Text, "name"@)]
}

/// The parameters `path`, `name`.
#[verifier::opaque]
pub open spec fn loaded_tensor() -> Seq<ParamView> {
    seq![(ArgKind::Text, "path"@), (ArgKind::Text, "name"@)]
}

/// The parameters `indices`, `weight`.
#[verifier::opaque]
pub open spec fn embedded() -> Seq<ParamView> {
    seq![(ArgKind::Tensor, "indices"@), (ArgKind::Tensor, "weight"@)]
}

/// The parameters `tensor`, `weight`, `eps`.
#[verifier::opaque]
pub open spec fn normed() -> Seq<ParamView> {
    seq![(ArgKind::Tensor, "tensor"@), (ArgKind::Tensor, "weight"@), (ArgKind::Float, "eps"@)]
}

/// The parameters `input`, `residual`, `weight`, `eps`.
#[verifier::opaque]
pub open spec fn added_and_normed() -> Seq<ParamView> {
    seq![
        (ArgKind::Tensor, "input"@),
        (ArgKind::Tensor, "residual"@),
        (ArgKind::Tensor, "weight"@),
        (ArgKind::Float, "eps"@),
    ]
}

/// The parameters `query`, `key`, `value`, `is_causal`.
#[verifier::opaque]
pub open spec fn attention() -> Seq<ParamView> {
    seq![
        (ArgKind::Tensor, "query"@),
        (ArgKind::Tensor, "key"@),
        (ArgKind::Tensor, "value"@),
        (ArgKind::Bool, "is_causal"@),
    ]
}

/// The parameters `query`, `key`, `value`, `mask`.
#[verifier::opaque]
pub open spec fn masked_attention() -> Seq<ParamView> {
    seq![
        (ArgKind::Tensor, "query"@),
        (ArgKind::Tensor, "key"@),
        (ArgKind::Tensor, "value"@),
        (ArgKind::Tensor, "mask"@),
    ]
}

/// The parameters `input_ids`, `inputs_embeds`, `image_features`, `image_token_id`.
#[verifier::opaque]
pub open spec fn scattered() -> Seq<ParamView> {
    seq![
        (ArgKind::Tensor, "input_ids"@),
        (ArgKind::Tensor, "inputs_embeds"@),
        (ArgKind::Tensor, "image_features"@),
        (ArgKind::Int, "image_token_id"@),
    ]
}

/// The parameters `tokens`, `token`.
#[verifier::opaque]
pub open spec fn token_appended() -> Seq<ParamView> {
    seq![(ArgKind::Tensor, "tokens"@), (ArgKind::Int, "token"@)]
}

/// The parameters `tokens`, `token`.
#[verifier::opaque]
pub open spec fn token_tensor_appended() -> Seq<ParamView> {
    seq![(ArgKind::Tensor, "tokens"@), (ArgKind::Tensor, "token"@)]
}

/// The parameters `token`.
#[verifier::opaque]
pub open spec fn token_pushed() -> Seq<ParamView> {
    seq![(ArgKind::Tensor, "token"@)]
}

/// The parameters `path`.
#[verifier::opaque]
pub open spec fn image_path() -> Seq<ParamView> {
    seq![(ArgKind::Text, "path"@)]
}

/// The parameters of an operation, in order.
pub open spec fn param_list(op: TensorOp) -> Seq<ParamView> {
    match op {
        TensorOp::ToFloat
        | TensorOp::ToBfloat16
        | TensorOp::OnesLike
        | TensorOp::ZerosLike
        | TensorOp::ZerosLikeInt
        | TensorOp::Rsqrt
        | TensorOp::Neg
        | TensorOp::Cos
        | TensorOp::Sin
        | TensorOp::Relu
        | TensorOp::Sigmoid
        | TensorOp::Silu
        | TensorOp::Contiguous
        | TensorOp::Real
        | TensorOp::Imag
        | TensorOp::FftRfftn2
        | TensorOp::AvgPool2d2
        | TensorOp::Shape => one_tensor(),
        TensorOp::Add | TensorOp::Sub | TensorOp::Mul | TensorOp::Matmul => two_tensors(),
        TensorOp::AddScalar
        | TensorOp::MulScalar
        | TensorOp::DivScalar
        | TensorOp::PowScalar => tensor_and_value(),
        TensorOp::Arange => range_end(),
        TensorOp::ArangeStart => range_bounds(),
        TensorOp::CausalMask => mask_length(),
        TensorOp::MeanDim => mean_over(),
        TensorOp::Softmax
        | TensorOp::Unsqueeze
        | TensorOp::ArgmaxInt
        | TensorOp::Argmax
        | TensorOp::ArgmaxToken => along_dim(),
        TensorOp::MaskedFill => fill_where(),
        TensorOp::Cat2 | TensorOp::Stack2 => joined_along(),
        TensorOp::Narrow => narrowed(),
        TensorOp::Transpose => swapped_dims(),
        TensorOp::RepeatInterleave => repeated_along(),
        TensorOp::PadReflect2d => reflected(),
        TensorOp::Gelu => gelu_kind(),
        TensorOp::View2 => shape2(),
        TensorOp::Permute3 | TensorOp::View3 => shape3(),
        TensorOp::Permute4 | TensorOp::View4 => shape4(),
        TensorOp::Permute5 | TensorOp::View5 => shape5(),
        TensorOp::Select => selected(),
        TensorOp::Complex => complex_parts(),
        TensorOp::FftIrfftn2 => inverse_size(),
        TensorOp::SaveSafetensors => saved_tensor(),
        TensorOp::LoadSafetensors => loaded_tensor(),
        TensorOp::Embedding => embedded(),
        TensorOp::RmsNorm => normed(),
        TensorOp::AddRmsNorm => added_and_normed(),
        TensorOp::ScaledDotProductAttention => attention(),
        TensorOp::ScaledDotProductAttentionMasked => masked_attention(),
        TensorOp::ScatterImageEmbeddings => scattered(),
        TensorOp::AppendToken => token_appended(),
        TensorOp::AppendTokenTensor => token_tensor_appended(),
        TensorOp::PushGeneratedTokenTensor => token_pushed(),
        TensorOp::Lfm2VlPatches => image_path(),
    }
}

fn param(kind: ArgKind, label: &'static str) -> (r: Param)
    ensures
        r.kind == kind,
        r.label@ == label@,
{
    Param { kind, label }
}

fn params1(a: Param) -> (r: Vec<Param>)
    ensures
        args::param_views(r@) == seq![(a.kind, a.label@)],
{
    let mut out: Vec<Param> = Vec::new();
    out.push(a);
    assert(args::param_views(out@) =~= seq![(a.kind, a.label@)]);
    out
}

fn params2(a: Param, b: Param) -> (r: Vec<Param>)
    ensures
        args::param_views(r@) == seq![(a.kind, a.label@), (b.kind, b.label@)],
{
    let mut out: Vec<Param> = Vec::new();
    out.push(a);
    out.push(b);
    assert(args::param_views(out@) =~= seq![(a.kind, a.label@), (b.kind, b.label@)]);
    out
}

fn params3(a: Param, b: Param, c: Param) -> (r: Vec<Param>)
    ensures
        args::param_views(r@) == seq![(a.kind, a.label@), (b.kind, b.label@), (c.kind, c.label@)],
{
    let mut out: Vec<Param> = Vec::new();
    out.push(a);
    out.push(b);
    out.push(c);
    assert(args::param_views(out@) =~= seq![
        (a.kind, a.label@),
        (b.kind, b.label@),
        (c.kind, c.label@),
    ]);
    out
}

fn params4(a: Param, b: Param, c: Param, d: Param) -> (r: Vec<Param>)
    ensures
        args::param_views(r@) == seq![
            (a.kind, a.label@),
            (b.kind, b.label@),
            (c.kind, c.label@),
            (d.kind, d.label@),
        ],
{
    let mut out: Vec<Param> = Vec::new();
    out.push(a);
    out.push(b);
    out.push(c);
    out.push(d);
    assert(args::param_views(out@) =~= seq![
        (a.kind, a.label@),
        (b.kind, b.label@),
        (c.kind, c.label@),
        (d.kind, d.label@),
    ]);
    out
}

fn params5(a: Param, b: Param, c: Param, d: Param, e: Param) -> (r: Vec<Param>)
    ensures
        args::param_views(r@) == seq![
            (a.kind, a.label@),
            (b.kind, b.label@),
            (c.kind, c.label@),
            (d.kind, d.label@),
            (e.kind, e.label@),
        ],
{
    let mut out: Vec<Param> = Vec::new();
    out.push(a);
    out.push(b);
    out.push(c);
    out.push(d);
    out.push(e);
    assert(args::param_views(out@) =~= seq![
        (a.kind, a.label@),
        (b.kind, b.label@),
        (c.kind, c.label@),
        (d.kind, d.label@),
        (e.kind, e.label@),
    ]);
    out
}

fn params6(a: Param, b: Param, c: Param, d: Param, e: Param, f: Param) -> (r: Vec<Param>)
    ensures
        args::param_views(r@) == seq![
            (a.kind, a.label@),
            (b.kind, b.label@),
            (c.kind, c.label@),
            (d.kind, d.label@),
            (e.kind, e.label@),
            (f.kind, f.label@),
        ],
{
    let mut out: Vec<Param> = Vec::new();
    out.push(a);
    out.push(b);
    out.push(c);
    out.push(d);
    out.push(e);
    out.push(f);
    assert(args::param_views(out@) =~= seq![
        (a.kind, a.label@),
        (b.kind, b.label@),
        (c.kind, c.label@),
        (d.kind, d.label@),
        (e.kind, e.label@),
        (f.kind, f.label@),
    ]);
    out
}

fn one_tensor_params() -> (r: Vec<Param>)
    ensures
        args::param_views(r@) == one_tensor(),
{
    reveal(one_tensor);
    params1(param(ArgKind::Tensor, "tensor"))
}

fn two_tensors_params() -> (r: Vec<Param>)
    ensures
        args::param_views(r@) == two_tensors(),
{
    reveal(two_tensors);
    params2(param(ArgKind::Tensor, "left"), param(ArgKind::Tensor, "right"))
}

fn tensor_and_value_params() -> (r: Vec<Param>)
    ensures
        args::param_views(r@) == tensor_and_value(),
{
    reveal(tensor_and_value);
    params2(param(ArgKind::Tensor, "tensor"), param(ArgKind::Float, "value"))
}

fn range_end_params() -> (r: Vec<Param>)
    ensures
        args::param_views(r@) == range_end(),
{
    reveal(range_end);
    params1(param(ArgKind::Int, "end"))
}

fn range_bounds_params() -> (r: Vec<Param>)
    ensures
        args::param_views(r@) == range_bounds(),
{
    reveal(range_bounds);
    params2(param(ArgKind::Int, "start"), param(ArgKind::Int, "end"))
}

fn mask_length_params() -> (r: Vec<Param>)
    ensures
        args::param_views(r@) == mask_length(),
{
    reveal(mask_length);
    params1(param(ArgKind::Int, "seq_len"))
}

fn mean_over_params() -> (r: Vec<Param>)
    ensures
        args::param_views(r@) == mean_over(),
{
    reveal(mean_over);
    params3(
        param(ArgKind::Tensor, "tensor"),
        param(ArgKind::Int, "dim"),
        param(ArgKind::Bool, "keepdim"),
    )
}

fn along_dim_params() -> (r: Vec<Param>)
    ensures
        args::param_views(r@) == along_dim(),
{
    reveal(along_dim);
    params2(param(ArgKind::Tensor, "tensor"), param(ArgKind::Int, "dim"))
}

fn fill_where_params() -> (r: Vec<Param>)
    ensures
        args::param_views(r@) == fill_where(),
{
    reveal(fill_where);
    params3(
        param(ArgKind::Tensor, "tensor"),
        param(ArgKind::Tensor, "mask"),
        param(ArgKind::Float, "value"),
    )
}

fn joined_along_params() -> (r: Vec<Param>)
    ensures
        args::param_views(r@) == joined_along(),
{
    reveal(joined_along);
    params3(
        param(ArgKind::Tensor, "left"),
        param(ArgKind::Tensor, "right"),
        param(ArgKind::Int, "dim"),
    )
}

fn narrowed_params() -> (r: Vec<Param>)
    ensures
        args::param_views(r@) == narrowed(),
{
    reveal(narrowed);
    params4(
        param(ArgKind::Tensor, "tensor"),
        param(ArgKind::Int, "dim"),
        param(ArgKind::Int, "start"),
        param(ArgKind::Int, "len"),
    )
}

fn swapped_dims_params() -> (r: Vec<Param>)
    ensures
        args::param_views(r@) == swapped_dims(),
{
    reveal(swapped_dims);
    params3(
        param(ArgKind::Tensor, "tensor"),
        param(ArgKind::Int, "dim0"),
        param(ArgKind::Int, "dim1"),
    )
}

fn repeated_along_params() -> (r: Vec<Param>)
    ensures
        args::param_views(r@) == repeated_along(),
{
    reveal(repeated_along);
    params3(
        param(ArgKind::Tensor, "tensor"),
        param(ArgKind::Int, "repeats"),
        param(ArgKind::Int, "dim"),
    )
}

fn reflected_params() -> (r: Vec<Param>)
    ensures
        args::param_views(r@) == reflected(),
{
    reveal(reflected);
    params5(
        param(ArgKind::Tensor, "tensor"),
        param(ArgKind::Int, "left"),
        param(ArgKind::Int, "right"),
        param(ArgKind::Int, "top"),
        param(ArgKind::Int, "bottom"),
    )
}

fn gelu_kind_params() -> (r: Vec<Param>)
    ensures
        args::param_views(r@) == gelu_kind(),
{
    reveal(gelu_kind);
    params2(param(ArgKind::Tensor, "tensor"), param(ArgKind::Text, "approximate"))
}

fn shape2_params() -> (r: Vec<Param>)
    ensures
        args::param_views(r@) == shape2(),
{
    reveal(shape2);
    params3(param(ArgKind::Tensor, "tensor"), param(ArgKind::Int, "d0"), param(ArgKind::Int, "d1"))
}

fn shape3_params() -> (r: Vec<Param>)
    ensures
        args::param_views(r@) == shape3(),
{
    reveal(shape3);
    params4(
        param(ArgKind::Tensor, "tensor"),
        param(ArgKind::Int, "d0"),
        param(ArgKind::Int, "d1"),
        param(ArgKind::Int, "d2"),
    )
}

fn shape4_params() -> (r: Vec<Param>)
    ensures
        args::param_views(r@) == shape4(),
{
    reveal(shape4);
    params5(
        param(ArgKind::Tensor, "tensor"),
        param(ArgKind::Int, "d0"),
        param(ArgKind::Int, "d1"),
        param(ArgKind::Int, "d2"),
        param(ArgKind::Int, "d3"),
    )
}

fn shape5_params() -> (r: Vec<Param>)
    ensures
        args::param_views(r@) == shape5(),
{
    reveal(shape5);
    params6(
        param(ArgKind::Tensor, "tensor"),
        param(ArgKind::Int, "d0"),
        param(ArgKind::Int, "d1"),
        param(ArgKind::Int, "d2"),
        param(ArgKind::Int, "d3"),
        param(ArgKind::Int, "d4"),
    )
}

fn selected_params() -> (r: Vec<Param>)
    ensures
        args::param_views(r@) == selected(),
{
    reveal(selected);
    params3(
        param(ArgKind::Tensor, "tensor"),
        param(ArgKind::Int, "dim"),
        param(ArgKind::Int, "index"),
    )
}

fn complex_parts_params() -> (r: Vec<Param>)
    ensures
        args::param_views(r@) == complex_parts(),
{
    reveal(complex_parts);
    params2(param(ArgKind::Tensor, "real"), param(ArgKind::Tensor, "imag"))
}

fn inverse_size_params() -> (r: Vec<Param>)
    ensures
        args::param_views(r@) == inverse_size(),
{
    reveal(inverse_size);
    params3(
        param(ArgKind::Tensor, "tensor"),
        param(ArgKind::Int, "height"),
        param(ArgKind::Int, "width"),
    )
}

fn saved_tensor_params() -> (r: Vec<Param>)
    ensures
        args::param_views(r@) == saved_tensor(),
{
    reveal(saved_tensor);
    params3(
        param(ArgKind::Tensor, "tensor"),
        param(ArgKind::Text, "path"),
        param(ArgKind::Text, "name"),
    )
}

fn loaded_tensor_params() -> (r: Vec<Param>)
    ensures
        args::param_views(r@) == loaded_tensor(),
{
    reveal(loaded_tensor);
    params2(param(ArgKind::Text, "path"), param(ArgKind::Text, "name"))
}

fn embedded_params() -> (r: Vec<Param>)
    ensures
        args::param_views(r@) == embedded(),
{
    reveal(embedded);
    params2(param(ArgKind::Tensor, "indices"), param(ArgKind::Tensor, "weight"))
}

fn normed_params() -> (r: Vec<Param>)
    ensures
        args::param_views(r@) == normed(),
{
    reveal(normed);
    params3(
        param(ArgKind::Tensor, "tensor"),
        param(ArgKind::Tensor, "weight"),
        param(ArgKind::Float, "eps"),
    )
}

fn added_and_normed_params() -> (r: Vec<Param>)
    ensures
        args::param_views(r@) == added_and_normed(),
{
    reveal(added_and_normed);
    params4(
        param(ArgKind::Tensor, "input"),
        param(ArgKind::Tensor, "residual"),
        param(ArgKind::Tensor, "weight"),
        param(ArgKind::Float, "eps"),
    )
}

fn attention_params() -> (r: Vec<Param>)
    ensures
        args::param_views(r@) == attention(),
{
    reveal(attention);
    params4(
        param(ArgKind::Tensor, "query"),
        param(ArgKind::Tensor, "key"),
        param(ArgKind::Tensor, "value"),
        param(ArgKind::Bool, "is_causal"),
    )
}

fn masked_attention_params() -> (r: Vec<Param>)
    ensures
        args::param_views(r@) == masked_attention(),
{
    reveal(masked_attention);
    params4(
        param(ArgKind::Tensor, "query"),
        param(ArgKind::Tensor, "key"),
        param(ArgKind::Tensor, "value"),
        param(ArgKind::Tensor, "mask"),
    )
}

fn scattered_params() -> (r: Vec<Param>)
    ensures
        args::param_views(r@) == scattered(),
{
    reveal(scattered);
    params4(
        param(ArgKind::Tensor, "input_ids"),
        param(ArgKind::Tensor, "inputs_embeds"),
        param(ArgKind::Tensor, "image_features"),
        param(ArgKind::Int, "image_token_id"),
    )
}

fn token_appended_params() -> (r: Vec<Param>)
    ensures
        args::param_views(r@) == token_appended(),
{
    reveal(token_appended);
    params2(param(ArgKind::Tensor, "tokens"), param(ArgKind::Int, "token"))
}

fn token_tensor_appended_params() -> (r: Vec<Param>)
    ensures
        args::param_views(r@) == token_tensor_appended(),
{
    reveal(token_tensor_appended);
    params2(param(ArgKind::Tensor, "tokens"), param(ArgKind::Tensor, "token"))
}

fn token_pushed_params() -> (r: Vec<Param>)
    ensures
        args::param_views(r@) == token_pushed(),
{
    reveal(token_pushed);
    params1(param(ArgKind::Tensor, "token"))
}

fn image_path_params() -> (r: Vec<Param>)
    ensures
        args::param_views(r@) == image_path(),
{
    reveal(image_path);
    params1(param(ArgKind::Text, "path"))
}

/// The parameters of an operation, in order.
pub fn params_of(op: TensorOp) -> (r: Vec<Param>)
    ensures
        args::param_views(r@) == param_list(op),
{
    match op {
        TensorOp::ToFloat
        | TensorOp::ToBfloat16
        | TensorOp::OnesLike
        | TensorOp::ZerosLike
        | TensorOp::ZerosLikeInt
        | TensorOp::Rsqrt
        | TensorOp::Neg
        | TensorOp::Cos
        | TensorOp::Sin
        | TensorOp::Relu
        | TensorOp::Sigmoid
        | TensorOp::Silu
        | TensorOp::Contiguous
        | TensorOp::Real
        | TensorOp::Imag
        | TensorOp::FftRfftn2
        | TensorOp::AvgPool2d2
        | TensorOp::Shape => one_tensor_params(),
        TensorOp::Add | TensorOp::Sub | TensorOp::Mul | TensorOp::Matmul => two_tensors_params(),
        TensorOp::AddScalar
        | TensorOp::MulScalar
        | TensorOp::DivScalar
        | TensorOp::PowScalar => tensor_and_value_params(),
        TensorOp::Arange => range_end_params(),
        TensorOp::ArangeStart => range_bounds_params(),
        TensorOp::CausalMask => mask_length_params(),
        TensorOp::MeanDim => mean_over_params(),
        TensorOp::Softmax
        | TensorOp::Unsqueeze
        | TensorOp::ArgmaxInt
        | TensorOp::Argmax
        | TensorOp::ArgmaxToken => along_dim_params(),
        TensorOp::MaskedFill => fill_where_params(),
        TensorOp::Cat2 | TensorOp::Stack2 => joined_along_params(),
        TensorOp::Narrow => narrowed_params(),
        TensorOp::Transpose => swapped_dims_params(),
        TensorOp::RepeatInterleave => repeated_along_params(),
        TensorOp::PadReflect2d => reflected_params(),
        TensorOp::Gelu => gelu_kind_params(),
        TensorOp::View2 => shape2_params(),
        TensorOp::Permute3 | TensorOp::View3 => shape3_params(),
        TensorOp::Permute4 | TensorOp::View4 => shape4_params(),
        TensorOp::Permute5 | TensorOp::View5 => shape5_params(),
        TensorOp::Select => selected_params(),
        TensorOp::Complex => complex_parts_params(),
        TensorOp::FftIrfftn2 => inverse_size_params(),
        TensorOp::SaveSafetensors => saved_tensor_params(),
        TensorOp::LoadSafetensors => loaded_tensor_params(),
        TensorOp::Embedding => embedded_params(),
        TensorOp::RmsNorm => normed_params(),
        TensorOp::AddRmsNorm => added_and_normed_params(),
        TensorOp::ScaledDotProductAttention => attention_params(),
        TensorOp::ScaledDotProductAttentionMasked => masked_attention_params(),
        TensorOp::ScatterImageEmbeddings => scattered_params(),
        TensorOp::AppendToken => token_appended_params(),
        TensorOp::AppendTokenTensor => token_tensor_appended_params(),
        TensorOp::PushGeneratedTokenTensor => token_pushed_params(),
        TensorOp::Lfm2VlPatches => image_path_params(),
    }
}

/// What reading the arguments of an operation gives: all of them, tensors as handles that name
/// one, or the message on the first that is missing, of another type, or names no tensor.
pub open spec fn plan_outcome<T>(
    c: crate::context::ContextView<T>,
    op: TensorOp,
    args: Seq<Value>,
) -> Result<Seq<ArgView>, ErrorView> {
    args::read_args(c, args, param_list(op), param_list(op).len())
}

/// Reads the arguments of an operation.
pub fn plan_op<T>(
    context: &TorchContext<T>,
    op: TensorOp,
    args: &[Value],
) -> (r: VmResult<Vec<Arg>>)
    ensures
        match r {
            Ok(v) => plan_outcome(context@, op, args@) == Ok::<Seq<ArgView>, ErrorView>(
                args::arg_views(v@),
            ),
            Err(e) => plan_outcome(context@, op, args@) == Err::<Seq<ArgView>, ErrorView>(e@),
        },
{
    let params: Vec<Param> = params_of(op);
    decode_args(context, args, &params)
}

/// The arguments of an operation that were read are as many as its parameters, and each is of
/// the type that its parameter takes.
pub proof fn law_plan_matches_params<T>(
    c: crate::context::ContextView<T>,
    op: TensorOp,
    args: Seq<Value>,
)
    requires
        plan_outcome(c, op, args) is Ok,
    ensures
        ({
            let read = plan_outcome(c, op, args)->Ok_0;
            &&& read.len() == param_list(op).len()
            &&& forall|i: int|
                0 <= i < read.len() ==> #[trigger] matches_kind(read[i], param_list(op)[i].0)
        }),
{
    lemma_read_matches(c, args, param_list(op), param_list(op).len());
}

/// Whether an argument is of the type that a parameter takes.
pub open spec fn matches_kind(arg: ArgView, kind: ArgKind) -> bool {
    match kind {
        ArgKind::Tensor => arg is Tensor,
        ArgKind::Int => arg is Int,
        ArgKind::Bool => arg is Bool,
        ArgKind::Float => arg is Float,
        ArgKind::Text => arg is Text,
    }
}

proof fn lemma_read_matches<T>(
    c: crate::context::ContextView<T>,
    args: Seq<Value>,
    params: Seq<ParamView>,
    n: nat,
)
    requires
        n <= params.len(),
        args::read_args(c, args, params, n) is Ok,
    ensures
        ({
            let read = args::read_args(c, args, params, n)->Ok_0;
            &&& read.len() == n
            &&& forall|i: int|
                0 <= i < n ==> #[trigger] matches_kind(read[i], params[i].0)
        }),
    decreases n,
{
    if n > 0 {
        lemma_read_matches(c, args, params, (n - 1) as nat);
    }
}

/// What an operation works on: tensors, whole numbers, truth values, numbers and texts, in the
/// order in which a script gives them.
pub proof fn law_operations_take(op: TensorOp)
    ensures
        param_list(op).len() >= 1,
        match op {
            TensorOp::Add | TensorOp::Sub | TensorOp::Mul | TensorOp::Matmul | TensorOp::Complex
            | TensorOp::Embedding | TensorOp::AppendTokenTensor => takes(
                op,
                seq![ArgKind::Tensor, ArgKind::Tensor],
            ),
            TensorOp::AddScalar | TensorOp::MulScalar | TensorOp::DivScalar
            | TensorOp::PowScalar => takes(op, seq![ArgKind::Tensor, ArgKind::Float]),
            TensorOp::Arange | TensorOp::CausalMask => takes(op, seq![ArgKind::Int]),
            TensorOp::ArangeStart => takes(op, seq![ArgKind::Int, ArgKind::Int]),
            TensorOp::MeanDim => takes(op, seq![ArgKind::Tensor, ArgKind::Int, ArgKind::Bool]),
            TensorOp::Softmax | TensorOp::Unsqueeze | TensorOp::ArgmaxInt | TensorOp::Argmax
            | TensorOp::ArgmaxToken | TensorOp::AppendToken => takes(
                op,
                seq![ArgKind::Tensor, ArgKind::Int],
            ),
            TensorOp::MaskedFill | TensorOp::RmsNorm => takes(
                op,
                seq![ArgKind::Tensor, ArgKind::Tensor, ArgKind::Float],
            ),
            TensorOp::Cat2 | TensorOp::Stack2 => takes(
                op,
                seq![ArgKind::Tensor, ArgKind::Tensor, ArgKind::Int],
            ),
            TensorOp::Transpose | TensorOp::RepeatInterleave | TensorOp::View2 | TensorOp::Select
            | TensorOp::FftIrfftn2 => takes(op, seq![ArgKind::Tensor, ArgKind::Int, ArgKind::Int]),
            TensorOp::Narrow | TensorOp::Permute3 | TensorOp::View3 => takes(
                op,
                seq![ArgKind::Tensor, ArgKind::Int, ArgKind::Int, ArgKind::Int],
            ),
            TensorOp::PadReflect2d | TensorOp::Permute4 | TensorOp::View4 => takes(
                op,
                seq![ArgKind::Tensor, ArgKind::Int, ArgKind::Int, ArgKind::Int, ArgKind::Int],
            ),
            TensorOp::Permute5 | TensorOp::View5 => takes(
                op,
                seq![
                    ArgKind::Tensor,
                    ArgKind::Int,
                    ArgKind::Int,
                    ArgKind::Int,
                    ArgKind::Int,
                    ArgKind::Int,
                ],
            ),
            TensorOp::Gelu => takes(op, seq![ArgKind::Tensor, ArgKind::Text]),
            TensorOp::SaveSafetensors => takes(
                op,
                seq![ArgKind::Tensor, ArgKind::Text, ArgKind::Text],
            ),
            TensorOp::LoadSafetensors => takes(op, seq![ArgKind::Text, ArgKind::Text]),
            TensorOp::AddRmsNorm => takes(
                op,
                seq![ArgKind::Tensor, ArgKind::Tensor, ArgKind::Tensor, ArgKind::Float],
            ),
            TensorOp::ScaledDotProductAttention => takes(
                op,
                seq![ArgKind::Tensor, ArgKind::Tensor, ArgKind::Tensor, ArgKind::Bool],
            ),
            TensorOp::ScaledDotProductAttentionMasked => takes(
                op,
                seq![ArgKind::Tensor, ArgKind::Tensor, ArgKind::Tensor, ArgKind::Tensor],
            ),
            TensorOp::ScatterImageEmbeddings => takes(
                op,
                seq![ArgKind::Tensor, ArgKind::Tensor, ArgKind::Tensor, ArgKind::Int],
            ),
            TensorOp::Lfm2VlPatches => takes(op, seq![ArgKind::Text]),
            _ => takes(op, seq![ArgKind::Tensor]),
        },
{
    reveal(one_tensor);
    reveal(two_tensors);
    reveal(tensor_and_value);
    reveal(range_end);
    reveal(range_bounds);
    reveal(mask_length);
    reveal(mean_over);
    reveal(along_dim);
    reveal(fill_where);
    reveal(joined_along);
    reveal(narrowed);
    reveal(swapped_dims);
    reveal(repeated_along);
    reveal(reflected);
    reveal(gelu_kind);
    reveal(shape2);
    reveal(shape3);
    reveal(shape4);
    reveal(shape5);
    reveal(selected);
    reveal(complex_parts);
    reveal(inverse_size);
    reveal(saved_tensor);
    reveal(loaded_tensor);
    reveal(embedded);
    reveal(normed);
    reveal(added_and_normed);
    reveal(attention);
    reveal(masked_attention);
    reveal(scattered);
    reveal(token_appended);
    reveal(token_tensor_appended);
    reveal(token_pushed);
    reveal(image_path);
}

/// Whether an operation takes arguments of these kinds, in this order, and no other.
pub open spec fn takes(op: TensorOp, kinds: Seq<ArgKind>) -> bool {
    &&& param_list(op).len() == kinds.len()
    &&& forall|i: int| 0 <= i < kinds.len() ==> (#[trigger] param_list(op)[i]).0 == kinds[i]
}

/// What an operation is planned with are the arguments that a script gives, each as it stands in
/// its own place, and they are taken where they are of the kinds that the operation takes.
pub proof fn law_operation_is_planned<T>(
    c: crate::context::ContextView<T>,
    op: TensorOp,
    args: Seq<Value>,
)
    requires
        c.wf(),
    ensures
        plan_outcome(c, op, args) matches Ok(taken) ==> {
            &&& taken.len() == param_list(op).len()
            &&& taken.len() <= args.len()
            &&& forall|i: int|
                0 <= i < taken.len() ==> args::is_taken(
                    c,
                    param_list(op)[i].0,
                    args[i],
                    #[trigger] taken[i],
                )
        },
        param_list(op).len() <= args.len() && (forall|i: int|
            0 <= i < param_list(op).len() ==> args::can_be_taken(
                c,
                (#[trigger] param_list(op)[i]).0,
                args[i],
            )) ==> plan_outcome(c, op, args) is Ok,
{
    args::law_arguments_in_their_places(c, args, param_list(op), param_list(op).len());
    if param_list(op).len() <= args.len() && (forall|i: int|
        0 <= i < param_list(op).len() ==> args::can_be_taken(
            c,
            (#[trigger] param_list(op)[i]).0,
            args[i],
        )) {
        args::law_fitting_arguments_are_read(c, args, param_list(op), param_list(op).len());
    }
}

} // verus!
