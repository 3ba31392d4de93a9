//! What the functions on tensors promise: each works on what a script gives it, as what it was
//! given for.
use vstd::prelude::*;

use crate::args;
use crate::args::{Arg, FloatArgView};
use crate::context::{Kind, RopeCacheKey, RopeKind, TorchContext};
use crate::nn;
use crate::nn::{
    nn_apply_rope, nn_apply_rope_pair, nn_batch_norm2d, nn_conv1d, nn_conv1d_step, nn_conv2d,
    nn_conv_transpose2d, nn_layer_norm, nn_linear, nn_swiglu_linear, Conv1dPlan, Conv1dStepPlan,
    Conv2dPlan, LayerNormPlan, LinearPlan, RopePairPlan, SwigluLinearPlan, WeightedPlan,
};
use crate::ops;
use crate::ops::{plan_op, TensorOp};
use crate::rope;
use crate::rope::{build_rope_table, rope_request, rope_rows, rope_table, RopePlan, RopeRequest};
use crate::shapes;
use crate::shapes::{
    attention_mask_request, chunk_range, tensor_causal_padding_mask, tensor_chunk,
    tensor_padding_mask, tensor_shape, tensor_size, tensor_swiglu, tensor_tail, HalvesPlan,
    MaskPlan, NarrowPlan,
};
use crate::text;
use crate::value::{Value, ValueView, VmResult};
use crate::vl;
use crate::vl::{
    image_lfm2_vl_patches, vl_pixel_unshuffle2, vl_siglip2_position_embedding, PositionPlan,
    UnshufflePlan,
};

verus! {

/// The size of a tensor and its shape are its own, and half of its last size is half of it.
pub proof fn law_sizes_are_read<T>(
    context: &TorchContext<T>,
    args: &[Value],
    handle: i64,
    raw: i64,
    size: VmResult<Value>,
    shape: VmResult<Value>,
    halves: VmResult<HalvesPlan>,
)
    requires
        context@.wf(),
        args@.len() >= 2,
        args@[0] == Value::Int(handle),
        args@[1] == Value::Int(raw),
        context@.tensors.contains_key(handle),
        context@.tensors[handle].size@.len() <= usize::MAX,
        context@.tensors[handle].size@.len() <= i64::MAX,
        0 <= raw < context@.tensors[handle].size@.len(),
        call_ensures(tensor_size::<T>, (context, args), size),
        call_ensures(tensor_shape::<T>, (context, args), shape),
        call_ensures(tensor_swiglu::<T>, (context, args), halves),
    ensures
        size is Ok && size->Ok_0@ == ValueView::Int(context@.tensors[handle].size@[raw as int]),
        shape is Ok && shape->Ok_0@ == ValueView::String(
            shapes::sizes_text(context@.tensors[handle].size@),
        ),
        halves is Ok ==> halves->Ok_0.tensor == handle && halves->Ok_0.half + halves->Ok_0.half
            == context@.tensors[handle].size@.last(),
        context@.tensors[handle].size@.last() % 2 == 0 ==> halves is Ok,
{
    shapes::law_tensor_size(context@, args@, handle, raw);
}

/// A chunk and a tail are taken of the tensor and along the dimension that a script gives, as long
/// as it asks for.
pub proof fn law_parts_are_taken<T>(
    context: &TorchContext<T>,
    args: &[Value],
    handle: i64,
    a: i64,
    b: i64,
    c: i64,
    chunk: VmResult<NarrowPlan>,
    tail: VmResult<NarrowPlan>,
)
    requires
        context@.wf(),
        args@.len() >= 4,
        args@[0] == Value::Int(handle),
        args@[1] == Value::Int(a),
        args@[2] == Value::Int(b),
        args@[3] == Value::Int(c),
        context@.tensors.contains_key(handle),
        context@.tensors[handle].size@.len() <= usize::MAX,
        context@.tensors[handle].size@.len() <= i64::MAX,
    ensures
        call_ensures(tensor_chunk::<T>, (context, args), chunk) && chunk is Ok && 0 <= b
            < context@.tensors[handle].size@.len() ==> {
            let total = context@.tensors[handle].size@[b as int];
            let size = shapes::chunk_size(total as int, a as int);
            let p = chunk->Ok_0;
            &&& p.tensor == handle && p.dim == b
            &&& 0 < total ==> p.start == c * size && 0 < p.len <= size && p.start + p.len <= total
            &&& 0 < total ==> size * a >= total && (size - 1) * a < total
        },
        call_ensures(tensor_tail::<T>, (context, args), tail) && tail is Ok && 0 <= a
            < context@.tensors[handle].size@.len() && 0 <= context@.tensors[handle].size@[a as int]
            ==> {
            let total = context@.tensors[handle].size@[a as int];
            let p = tail->Ok_0;
            &&& p.tensor == handle && p.dim == a
            &&& p.start + p.len == total && p.start >= 0
            &&& p.len == b || (p.len == total && total <= b)
        },
{
    let size = context@.tensors[handle].size@;
    if call_ensures(tensor_chunk::<T>, (context, args), chunk) && chunk is Ok && 0 <= b
        < size.len() {
        shapes::law_chunk_plan(context@, args@, handle, a, b, c);
        if 0 < size[b as int] {
            shapes::law_chunk_sizes(size[b as int] as int, a as int, c as int);
        }
    }
    if call_ensures(tensor_tail::<T>, (context, args), tail) && tail is Ok && 0 <= a < size.len()
        && 0 <= size[a as int] {
        shapes::law_tail_plan(context@, args@, handle, a, b);
    }
}

/// In the masks of a batch a place is open where its token is no padding, and in a causal one where
/// it is not behind besides.
pub proof fn law_masks_are_open(
    mask: &Vec<i64>,
    batch: usize,
    len: usize,
    causal: MaskPlan,
    plain: MaskPlan,
    b: int,
    i: int,
    j: int,
)
    requires
        mask@.len() == batch * len,
        call_ensures(tensor_causal_padding_mask, (mask, batch, len), causal),
        call_ensures(tensor_padding_mask, (mask, batch, len), plain),
        0 <= b < batch,
        0 <= i < len,
        0 <= j < len,
    ensures
        causal.size@ == seq![batch as i64, 1i64, len as i64, len as i64],
        causal.open@[(b * len + i) * len + j] <==> j <= i && mask@[b * len + j] != 0,
        plain.size@ == seq![batch as i64, 1i64, 1i64, len as i64],
        plain.open@[b * len + j] <==> mask@[b * len + j] != 0,
{
    shapes::law_causal_mask(mask@, batch as int, len as int, b, i, j);
    assert(0 <= b * len + j < batch * len) by (nonlinear_arith)
        requires
            0 <= b < batch,
            0 <= j < len,
    ;
}

/// An attention mask is the tensor that is given, with its own two sizes.
pub proof fn law_attention_mask<T>(
    context: &TorchContext<T>,
    args: &[Value],
    r: VmResult<(i64, usize, usize)>,
)
    requires
        context@.wf(),
        call_ensures(attention_mask_request::<T>, (context, args), r),
        r is Ok,
    ensures
        nn::is_tensor(context@, args@, 0, r->Ok_0.0),
        context@.tensors[r->Ok_0.0].size@.len() == 2,
        r->Ok_0.1 == context@.tensors[r->Ok_0.0].size@[0],
        r->Ok_0.2 == context@.tensors[r->Ok_0.0].size@[1],
{
}

/// A chunk of a row begins where that many chunks end, and ends within the row.
pub proof fn law_chunk_of_row(total: i64, chunks: i64, index: usize, r: VmResult<(i64, i64)>)
    requires
        chunks > 0,
        total > 0,
        call_ensures(chunk_range, (total, chunks, index), r),
    ensures
        r is Ok <==> index * shapes::chunk_size(total as int, chunks as int) < total,
        r is Ok ==> r->Ok_0.0 == index * shapes::chunk_size(total as int, chunks as int)
            && r->Ok_0.0 + r->Ok_0.1 <= total && r->Ok_0.1 > 0,
{
    shapes::law_chunk_sizes(total as int, chunks as int, index as int);
}

/// A linear layer, a layer norm and a gated layer work on the tensors and numbers that were given,
/// each as what it was given for.
pub proof fn law_layers_are_planned<T>(
    context: &TorchContext<T>,
    args: &[Value],
    vectors: bool,
    linear: VmResult<LinearPlan>,
    norm: VmResult<LayerNormPlan>,
    gated: VmResult<SwigluLinearPlan>,
)
    requires
        context@.wf(),
    ensures
        call_ensures(nn_linear::<T>, (context, args, vectors), linear) && linear is Ok ==> {
            let p = linear->Ok_0;
            &&& nn::is_tensor(context@, args@, 0, p.input)
            &&& nn::is_tensor(context@, args@, 1, p.weight)
            &&& nn::is_optional(context@, args@, 2, p.bias)
            &&& p.bias is Some || !vectors ==> p.method@ is Product
        },
        call_ensures(nn_layer_norm::<T>, (context, args), norm) && norm is Ok ==> {
            let p = norm->Ok_0;
            &&& nn::is_tensor(context@, args@, 0, p.input)
            &&& nn::is_optional(context@, args@, 1, p.weight)
            &&& nn::is_optional(context@, args@, 2, p.bias)
            &&& nn::is_number(args@, 4, p.size)
            &&& match p.eps@ {
                FloatArgView::Int(n) => nn::is_number(args@, 3, n),
                FloatArgView::Float(f) => args@.len() > 3 && args@[3] is Float
                    && args@[3]->Float_0@ == f,
            }
        },
        call_ensures(nn_swiglu_linear::<T>, (context, args), gated) && gated is Ok ==> {
            let p = gated->Ok_0;
            &&& nn::is_tensor(context@, args@, 0, p.input)
            &&& nn::is_tensor(context@, args@, 1, p.weight)
            &&& nn::is_optional(context@, args@, 2, p.bias)
            &&& p.half + p.half == context@.tensors[p.input].size@.last()
        },
{
    nn::law_linear_plan(context@, args@, vectors);
    nn::law_layer_norm_plan(context@, args@);
    nn::law_swiglu_linear_plan(context@, args@);
}

/// Rotations and convolutions work on the tensors and numbers that were given, each as what it was
/// given for, with the weights of their own prefix.
pub proof fn law_rotations_and_convolutions_are_planned<T>(
    context: &TorchContext<T>,
    args: &[Value],
    turned: VmResult<nn::RopePlan>,
    pair: VmResult<RopePairPlan>,
    line: VmResult<Conv1dPlan>,
    step: VmResult<Conv1dStepPlan>,
    plane: VmResult<Conv2dPlan>,
    weighted: VmResult<WeightedPlan>,
)
    requires
        context@.wf(),
    ensures
        call_ensures(nn_apply_rope::<T>, (context, args), turned) && turned is Ok ==> {
            let p = turned->Ok_0;
            &&& nn::is_tensor(context@, args@, 0, p.input)
            &&& nn::is_tensor(context@, args@, 1, p.cos)
            &&& nn::is_tensor(context@, args@, 2, p.sin)
        },
        call_ensures(nn_apply_rope_pair::<T>, (context, args), pair) && pair is Ok ==> {
            let p = pair->Ok_0;
            &&& nn::is_tensor(context@, args@, 0, p.query)
            &&& nn::is_tensor(context@, args@, 1, p.key)
            &&& nn::is_tensor(context@, args@, 2, p.cos)
            &&& nn::is_tensor(context@, args@, 3, p.sin)
            &&& p.query_heads == context@.tensors[p.query].size@[1]
            &&& p.key_heads == context@.tensors[p.key].size@[1]
        },
        call_ensures(nn_conv1d::<T>, (context, args), line) && line is Ok ==> {
            let p = line->Ok_0;
            &&& nn::is_tensor(context@, args@, 0, p.input)
            &&& nn::is_tensor(context@, args@, 1, p.weight)
            &&& nn::is_optional(context@, args@, 2, p.bias)
            &&& nn::is_number(args@, 3, p.stride)
            &&& nn::is_number(args@, 4, p.padding)
            &&& nn::is_number(args@, 5, p.dilation)
            &&& nn::is_number(args@, 6, p.groups)
        },
        call_ensures(nn_conv1d_step::<T>, (context, args), step) && step is Ok ==> {
            let p = step->Ok_0;
            &&& nn::is_tensor(context@, args@, 0, p.state)
            &&& nn::is_tensor(context@, args@, 1, p.input)
            &&& nn::is_number(args@, 2, p.weight)
        },
        call_ensures(nn_conv2d::<T>, (context, args), plane) && plane is Ok ==> {
            let p = plane->Ok_0;
            &&& nn::is_tensor(context@, args@, 0, p.input)
            &&& args@.len() >= 6 && args@[1] is String && args@[1]->String_0@ == p.prefix@
            &&& p.weight@ == p.prefix@ + ".weight"@
            &&& nn::is_number(args@, 2, p.stride)
        },
        call_ensures(nn_conv_transpose2d::<T>, (context, args), weighted) && weighted is Ok ==> {
            let p = weighted->Ok_0;
            &&& nn::is_tensor(context@, args@, 0, p.input)
            &&& args@.len() > 1 && args@[1] is String && args@[1]->String_0@ == p.prefix@
            &&& p.weights@.len() == 2
            &&& p.weights@[0]@ == p.prefix@ + ".weight"@
            &&& p.weights@[1]@ == p.prefix@ + ".bias"@
        },
        call_ensures(nn_batch_norm2d::<T>, (context, args), weighted) && weighted is Ok ==> {
            let p = weighted->Ok_0;
            &&& nn::is_tensor(context@, args@, 0, p.input)
            &&& p.weights@.len() == 4
            &&& p.weights@[0]@ == p.prefix@ + ".weight"@
            &&& p.weights@[1]@ == p.prefix@ + ".bias"@
            &&& p.weights@[2]@ == p.prefix@ + ".running_mean"@
            &&& p.weights@[3]@ == p.prefix@ + ".running_var"@
        },
{
    nn::law_rotation_plans(context@, args@);
    nn::law_conv1d_plan(context@, args@);
    nn::law_conv1d_step_plan(context@, args@);
    nn::law_conv2d_plan(context@, args@);
    nn::law_weighted_plan(context@, args@);
    if weighted is Ok {
        let models = text::views(weighted->Ok_0.weights@);
        assert(models.len() == weighted->Ok_0.weights@.len());
        assert(forall|i: int|
            0 <= i < models.len() ==> #[trigger] models[i] == weighted->Ok_0.weights@[i]@);
    }
}

/// An operation is planned with the arguments that a script gives, each as it stands in its own
/// place.
pub proof fn law_operations_are_planned<T>(
    context: &TorchContext<T>,
    op: TensorOp,
    given: &[Value],
    r: VmResult<Vec<Arg>>,
)
    requires
        context@.wf(),
        call_ensures(plan_op::<T>, (context, op, given), r),
        r is Ok,
    ensures
        r->Ok_0@.len() == ops::param_list(op).len(),
        forall|i: int|
            0 <= i < r->Ok_0@.len() ==> args::is_taken(
                context@,
                ops::param_list(op)[i].0,
                given@[i],
                (#[trigger] r->Ok_0@[i])@,
            ),
{
    ops::law_operation_is_planned(context@, op, given@);
    let models = args::arg_views(r->Ok_0@);
    assert forall|i: int| 0 <= i < r->Ok_0@.len() implies args::is_taken(
        context@,
        ops::param_list(op)[i].0,
        given@[i],
        (#[trigger] r->Ok_0@[i])@,
    ) by {
        assert(models[i] == r->Ok_0@[i]@);
    }
}

/// A script that asks for rows of a rotation table gets those rows of the table for as many
/// positions as it asks for, in the size it asks for, whatever was asked for before.
///
/// `contents` says what a table or a part of one holds. The tables that are there hold the values
/// of their keys, `build` makes such tables, and `data` holds the rows of the plan.
pub proof fn law_rows_are_had<T, V, B: FnOnce(RopeCacheKey, i64) -> T>(
    context: &mut TorchContext<T>,
    request: &RopeRequest,
    kind: RopeKind,
    theta_bits: u32,
    build: B,
    plan: RopePlan,
    later: &mut TorchContext<T>,
    element: Kind,
    data: T,
    r: VmResult<Value>,
    contents: spec_fn(T) -> Seq<V>,
    zero: V,
    value: spec_fn(RopeCacheKey, int, int) -> V,
)
    requires
        request.wf(),
        call_ensures(
            rope_table::<T, B>,
            (context, request, kind, theta_bits, build),
            plan,
        ),
        *old(later) == *final(context),
        call_ensures(rope_rows::<T>, (later, plan, element, data), r),
        rope::all_hold(old(context)@.rope_cache, contents, zero, value),
        forall|key: RopeCacheKey, len: i64, table: T| #[trigger]
            call_ensures(build, (key, len), table) ==> rope::holds(
                crate::context::RopeEntry { key, len, table },
                contents,
                zero,
                value,
            ),
        contents(data) == rope::rows(
            contents(final(context)@.rope_cache[plan.place as int].table),
            plan.head_dim as int,
            plan.start as int,
            plan.len as int,
        ),
    ensures
        r is Ok && r->Ok_0 is Int,
        ({
            let key = RopeCacheKey { kind, head_dim: request.head_dim, theta_bits };
            let whole = rope::table_values(
                request.head_dim as int,
                request.start + request.len,
                zero,
                |p: int, f: int| value(key, p, f),
            );
            let tensor = final(later)@.tensors[r->Ok_0->Int_0];
            &&& tensor.size@ == seq![1i64, 1i64, request.len, request.head_dim as i64]
            &&& tensor.kind == element
            &&& forall|i: int|
                0 <= i < request.len ==> #[trigger] rope::rows(
                    contents(tensor.data),
                    request.head_dim as int,
                    i,
                    1,
                ) == rope::rows(whole, request.head_dim as int, request.start + i, 1)
            &&& rope::all_hold(final(later)@.rope_cache, contents, zero, value)
        }),
{
    let key = RopeCacheKey { kind, head_dim: request.head_dim, theta_bits };
    assert(rope::key_of(request@, kind, theta_bits) == key);
    rope::law_rope_rows(
        old(context)@,
        final(context)@,
        final(later)@,
        *request,
        key,
        build,
        plan,
        element,
        data,
        r,
        contents,
        zero,
        value,
    );
}

/// A rotation table that is built holds, in the row of each position, the value of each frequency
/// twice.
pub proof fn law_table_is_built<V: Copy, F: Fn(usize, usize) -> V>(
    len: usize,
    head_dim: usize,
    zero: V,
    made: F,
    r: Vec<V>,
    value: spec_fn(int, int) -> V,
    position: int,
    i: int,
)
    requires
        call_ensures(build_rope_table::<V, F>, (len, head_dim, zero, made), r),
        forall|p: usize, f: usize, v: V| #[trigger]
            call_ensures(made, (p, f), v) ==> v == value(p as int, f as int),
        0 <= position < len,
        0 <= i < head_dim as int / 2,
    ensures
        r@.len() == len * head_dim,
        r@[position * head_dim + i] == value(position, i),
        r@[position * head_dim + head_dim as int / 2 + i] == value(position, i),
        head_dim % 2 == 1 ==> r@[position * head_dim + head_dim - 1] == zero,
{
    rope::law_table_made(len, head_dim, zero, made, r@, value);
    rope::law_table_cells(head_dim as int, len as int, zero, value, position, i);
}

/// A request for rows of a rotation table is what the script gives.
pub proof fn law_rows_are_asked_for<T>(
    context: &TorchContext<T>,
    args: &[Value],
    at: bool,
    r: VmResult<RopeRequest>,
)
    requires
        call_ensures(rope_request::<T>, (context, args, at), r),
        r is Ok,
    ensures
        nn::is_number(args@, 0, r->Ok_0.len),
        args@.len() > 1 && args@[1] is Int && args@[1]->Int_0 == r->Ok_0.head_dim,
        at ==> nn::is_number(args@, 3, r->Ok_0.start),
        !at ==> r->Ok_0.start == 0,
        r->Ok_0.end == r->Ok_0.start + r->Ok_0.len,
{
    rope::law_rope_request(context@, args@, at);
}

/// A picture is read at 512 by 512 pixels and cut into squares: each byte of a square is that of
/// its own pixel.
pub proof fn law_picture_is_cut(
    path: &str,
    file: &Vec<u8>,
    r: VmResult<Vec<u8>>,
    patch_y: int,
    patch_x: int,
    y: int,
    x: int,
    channel: int,
)
    requires
        call_ensures(image_lfm2_vl_patches, (path, file), r),
        r is Ok,
        0 <= patch_y < 32,
        0 <= patch_x < 32,
        0 <= y < 16,
        0 <= x < 16,
        0 <= channel < 3,
    ensures
        exists|pixels: Seq<u8>|
            {
                &&& #[trigger] vl::may_show(
                    path@,
                    file@,
                    512u32,
                    512u32,
                    vl::Filter::Triangle,
                    Ok(pixels),
                )
                &&& r->Ok_0@[(patch_y * 32 + patch_x) * 768 + (y * 16 + x) * 3 + channel]
                    == pixels[((patch_y * 16 + y) * 512 + (patch_x * 16 + x)) * 3 + channel]
            },
{
    let picture = choose|picture: vl::PictureView| #[trigger]
        vl::may_show(
            path@,
            file@,
            vl::IMAGE_SIDE as u32,
            vl::IMAGE_SIDE as u32,
            vl::Filter::Triangle,
            picture,
        ) && vl::cut_in_patches(path@, picture, r);
    vl::law_picture_is_cut(path@, picture, r, patch_y, patch_x, y, x, channel);
    assert(vl::may_show(
        path@,
        file@,
        512u32,
        512u32,
        vl::Filter::Triangle,
        Ok(picture->Ok_0),
    ));
}

/// The positions of a picture and the unshuffling of its pixels are planned for the tensor and the
/// numbers that were given.
pub proof fn law_pictures_are_planned<T>(
    context: &TorchContext<T>,
    args: &[Value],
    positions: VmResult<PositionPlan>,
    pixels: VmResult<UnshufflePlan>,
)
    requires
        context@.wf(),
    ensures
        call_ensures(vl_siglip2_position_embedding::<T>, (context, args), positions)
            && positions is Ok ==> {
            let p = positions->Ok_0;
            &&& nn::is_tensor(context@, args@, 0, p.weight)
            &&& nn::is_number(args@, 1, p.height)
            &&& nn::is_number(args@, 2, p.width)
            &&& nn::is_number(args@, 3, p.max_len)
            &&& p.height > 0 && p.width > 0
        },
        call_ensures(vl_pixel_unshuffle2::<T>, (context, args), pixels) && pixels is Ok ==> {
            let p = pixels->Ok_0;
            let size = context@.tensors[p.tensor].size@;
            &&& nn::is_tensor(context@, args@, 0, p.tensor)
            &&& size.len() == 4 && p.columns@.len() == 4 && p.rows@.len() == 4
            &&& p.columns@[0] == size[0] && p.columns@[1] == size[1]
            &&& p.columns@[2] + p.columns@[2] == size[2]
            &&& p.rows@[0] == size[0]
            &&& p.rows@[1] + p.rows@[1] == size[2]
            &&& p.rows@[2] + p.rows@[2] == size[1]
        },
{
}

} // verus!
