//! Operations that depend on the sizes of tensors.
use vstd::prelude::*;
use vstd::string::*;

use crate::args;
use crate::context;
use crate::context::{ContextView, HostTensor, TorchContext};
use crate::runtime;
use crate::text;
use crate::value::{host_error, return_int, ErrorView, Value, ValueView, VmResult};

verus! {

/// The sizes of the tensor in place `i`.
pub open spec fn sizes_at<T>(
    c: ContextView<T>,
    args: Seq<Value>,
    i: int,
    label: Seq<char>,
) -> Result<(i64, Seq<i64>), ErrorView> {
    match args::tensor_at(c, args, i, label) {
        Err(e) => Err(e),
        Ok(h) => Ok((h, c.tensors[h].size@)),
    }
}

/// The handle and the tensor in place `index`.
pub fn sized_arg<'a, T>(
    context: &'a TorchContext<T>,
    args: &[Value],
    index: usize,
    label: &str,
) -> (r: VmResult<(i64, &'a HostTensor<T>)>)
    ensures
        match r {
            Ok((h, t)) => {
                &&& args::tensor_at(context@, args@, index as int, label@) == Ok::<i64, ErrorView>(
                    h,
                )
                &&& context@.tensors[h] == *t
                &&& sizes_at(context@, args@, index as int, label@) == Ok::<
                    (i64, Seq<i64>),
                    ErrorView,
                >((h, t.size@))
            },
            Err(e) => {
                &&& args::tensor_at(context@, args@, index as int, label@) == Err::<i64, ErrorView>(
                    e@,
                )
                &&& sizes_at(context@, args@, index as int, label@) == Err::<
                    (i64, Seq<i64>),
                    ErrorView,
                >(e@)
            },
        },
{
    match args::int_arg(&context.active_host_op, args, index, label) {
        Err(e) => Err(e),
        Ok(handle) => match context.tensor(handle) {
            Err(e) => Err(e),
            Ok(tensor) => Ok((handle, tensor)),
        },
    }
}

/// The dimension that a number names: a negative one counts from the end.
pub open spec fn dim_outcome(rank: nat, raw: i64) -> Result<int, ErrorView> {
    let dim = if raw < 0 {
        rank + raw
    } else {
        raw as int
    };
    if rank > i64::MAX {
        Err(ErrorView::Host("rank out of range"@))
    } else if dim < 0 || dim > usize::MAX {
        Err(ErrorView::Host("dimension is out of range"@))
    } else {
        Ok(dim)
    }
}

/// The message on a dimension that a tensor does not have.
pub open spec fn no_dimension(dim: int) -> ErrorView {
    ErrorView::Host("dimension "@ + text::decimal(dim) + " is out of range"@)
}

/// The size along a dimension.
pub open spec fn size_outcome(size: Seq<i64>, dim: int) -> Result<i64, ErrorView> {
    if dim < size.len() {
        Ok(size[dim])
    } else {
        Err(no_dimension(dim))
    }
}

fn find_dim(size: &Vec<i64>, raw: i64) -> (r: VmResult<usize>)
    ensures
        match r {
            Ok(dim) => {
                &&& dim_outcome(size@.len(), raw) == Ok::<int, ErrorView>(dim as int)
                &&& dim <= i64::MAX
            },
            Err(e) => dim_outcome(size@.len(), raw) == Err::<int, ErrorView>(e@),
        },
{
    let rank: usize = size.len();
    if rank as u64 > i64::MAX as u64 {
        return Err(host_error("rank out of range"));
    }
    let dim: i64 = if raw < 0 {
        rank as i64 + raw
    } else {
        raw
    };
    if dim < 0 || dim as u64 > usize::MAX as u64 {
        return Err(host_error("dimension is out of range"));
    }
    Ok(dim as usize)
}

fn find_size(size: &Vec<i64>, dim: usize) -> (r: VmResult<i64>)
    ensures
        match r {
            Ok(n) => size_outcome(size@, dim as int) == Ok::<i64, ErrorView>(n),
            Err(e) => size_outcome(size@, dim as int) == Err::<i64, ErrorView>(e@),
        },
{
    if dim < size.len() {
        Ok(size[dim])
    } else {
        Err(
            host_error(
                text::join3(
                    "dimension ",
                    text::decimal_text(dim as i128).as_str(),
                    " is out of range",
                ).as_str(),
            ),
        )
    }
}

/// What asking for one size of a tensor gives.
pub open spec fn tensor_size_outcome<T>(c: ContextView<T>, args: Seq<Value>) -> Result<
    ValueView,
    ErrorView,
> {
    match sizes_at(c, args, 0, "tensor"@) {
        Err(e) => Err(e),
        Ok((_, size)) => match args::int_at(c.active_host_op, args, 1, "dim"@) {
            Err(e) => Err(e),
            Ok(raw) => match dim_outcome(size.len(), raw) {
                Err(e) => Err(e),
                Ok(dim) => match size_outcome(size, dim) {
                    Err(e) => Err(e),
                    Ok(n) => Ok(ValueView::Int(n)),
                },
            },
        },
    }
}

/// One size of a tensor.
pub fn tensor_size<T>(context: &TorchContext<T>, args: &[Value]) -> (r: VmResult<Value>)
    ensures
        runtime::outcome(r) == tensor_size_outcome(context@, args@),
{
    let (_, tensor) = match sized_arg(context, args, 0, "tensor") {
        Err(e) => {
            return Err(e);
        },
        Ok(pair) => pair,
    };
    let raw: i64 = match args::int_arg(&context.active_host_op, args, 1, "dim") {
        Err(e) => {
            return Err(e);
        },
        Ok(raw) => raw,
    };
    match find_dim(&tensor.size, raw) {
        Err(e) => Err(e),
        Ok(dim) => match find_size(&tensor.size, dim) {
            Err(e) => Err(e),
            Ok(n) => return_int(n),
        },
    }
}

/// Sizes in square brackets, with commas between them.
pub open spec fn sizes_text(size: Seq<i64>) -> Seq<char> {
    seq!['['] + text::joined(
        Seq::new(size.len(), |i: int| text::decimal(size[i] as int)),
        ", "@,
    ) + seq![']']
}

/// Sizes in square brackets, with commas between them.
pub fn shape_text(size: &Vec<i64>) -> (r: String)
    ensures
        r@ == sizes_text(size@),
{
    let mut parts: Vec<String> = Vec::new();
    let mut i: usize = 0;
    while i < size.len()
        invariant
            i <= size@.len(),
            parts@.len() == i,
            forall|k: int| 0 <= k < i ==> #[trigger] parts@[k]@ == text::decimal(size@[k] as int),
        decreases size@.len() - i,
    {
        parts.push(text::decimal_text(size[i] as i128));
        i = i + 1;
    }
    assert(text::views(parts@) =~= Seq::new(
        size@.len(),
        |i: int| text::decimal(size@[i] as int),
    ));
    let mut out: String = String::new();
    out.push('[');
    out.append(text::join(&parts, ", ").as_str());
    out.push(']');
    assert(out@ =~= sizes_text(size@));
    out
}

/// The sizes of a tensor as a text.
pub fn tensor_shape<T>(context: &TorchContext<T>, args: &[Value]) -> (r: VmResult<Value>)
    ensures
        runtime::outcome(r) == match sizes_at(context@, args@, 0, "tensor"@) {
            Err(e) => Err::<ValueView, ErrorView>(e),
            Ok((_, size)) => Ok(ValueView::String(sizes_text(size))),
        },
{
    match sized_arg(context, args, 0, "tensor") {
        Err(e) => Err(e),
        Ok((_, tensor)) => Ok(Value::String(shape_text(&tensor.size))),
    }
}

/// A part of a tensor along one dimension.
#[derive(Clone, Copy, Debug, PartialEq, Eq, Structural)]
pub struct NarrowPlan {
    pub tensor: i64,
    pub dim: i64,
    pub start: i64,
    pub len: i64,
}

/// The result of planning a part of a tensor, as a model.
pub open spec fn narrow_result(r: VmResult<NarrowPlan>) -> Result<NarrowPlan, ErrorView> {
    match r {
        Ok(plan) => Ok(plan),
        Err(e) => Err(e@),
    }
}

/// The size of all chunks but the last, where `total` items are split in `chunks`.
pub open spec fn chunk_size(total: int, chunks: int) -> int {
    (total + chunks - 1) / chunks
}

/// The start and length of the chunk `index` of `total` items that are split in `chunks`.
pub open spec fn chunk_outcome(total: int, chunks: int, index: int) -> Result<
    (int, int),
    ErrorView,
> {
    let size = chunk_size(total, chunks);
    let start = index * size;
    if total <= 0 || start >= total {
        Err(
            ErrorView::Host(
                "chunk index "@ + text::decimal(index) + " is out of range"@,
            ),
        )
    } else {
        Ok(
            (
                start,
                if size < total - start {
                    size
                } else {
                    total - start
                },
            ),
        )
    }
}

/// The start and length of the chunk `index` of `total` items that are split in `chunks`.
pub fn chunk_range(total: i64, chunks: i64, index: usize) -> (r: VmResult<(i64, i64)>)
    requires
        chunks > 0,
    ensures
        match r {
            Ok((start, len)) => {
                &&& chunk_outcome(total as int, chunks as int, index as int) == Ok::<
                    (int, int),
                    ErrorView,
                >((start as int, len as int))
                &&& 0 <= start
                &&& 0 < len
                &&& start + len <= total
            },
            Err(e) => chunk_outcome(total as int, chunks as int, index as int) == Err::<
                (int, int),
                ErrorView,
            >(e@),
        },
{
    let ghost size_int = chunk_size(total as int, chunks as int);
    if total > 0 {
        let size: i128 = (total as i128 + chunks as i128 - 1) / (chunks as i128);
        proof {
            let t = total as int;
            let c = chunks as int;
            assert((t + c - 1) / c <= t) by (nonlinear_arith)
                requires
                    t > 0,
                    c > 0,
            ;
            assert((t + c - 1) / c >= 1) by (nonlinear_arith)
                requires
                    t > 0,
                    c > 0,
            ;
            let n = index as int;
            assert(0 <= n * size_int <= 0xFFFF_FFFF_FFFF_FFFF * 0x7FFF_FFFF_FFFF_FFFF)
                by (nonlinear_arith)
                requires
                    0 <= n <= 0xFFFF_FFFF_FFFF_FFFF,
                    1 <= size_int <= 0x7FFF_FFFF_FFFF_FFFF,
            ;
        }
        let start: i128 = index as i128 * size;
        if start < total as i128 {
            let left: i128 = total as i128 - start;
            let len: i128 = if size < left {
                size
            } else {
                left
            };
            return Ok((start as i64, len as i64));
        }
    }
    Err(
        host_error(
            text::join3(
                "chunk index ",
                text::decimal_text(index as i128).as_str(),
                " is out of range",
            ).as_str(),
        ),
    )
}

/// What asking for a chunk of a tensor gives.
pub open spec fn tensor_chunk_outcome<T>(c: ContextView<T>, args: Seq<Value>) -> Result<
    NarrowPlan,
    ErrorView,
> {
    let op = c.active_host_op;
    match sizes_at(c, args, 0, "tensor"@) {
        Err(e) => Err(e),
        Ok((tensor, size)) => match args::int_at(op, args, 1, "chunks"@) {
            Err(e) => Err(e),
            Ok(chunks) => if chunks <= 0 {
                Err(ErrorView::Host("chunks must be positive"@))
            } else {
                match args::int_at(op, args, 2, "dim"@) {
                    Err(e) => Err(e),
                    Ok(raw) => match dim_outcome(size.len(), raw) {
                        Err(e) => Err(e),
                        Ok(dim) => match args::int_at(op, args, 3, "index"@) {
                            Err(e) => Err(e),
                            Ok(index) => match runtime::index_outcome(index, "chunk index"@) {
                                Err(e) => Err(e),
                                Ok(index) => match size_outcome(size, dim) {
                                    Err(e) => Err(e),
                                    Ok(total) => match chunk_outcome(
                                        total as int,
                                        chunks as int,
                                        index,
                                    ) {
                                        Err(e) => Err(e),
                                        Ok((start, len)) => Ok(
                                            NarrowPlan {
                                                tensor,
                                                dim: dim as i64,
                                                start: start as i64,
                                                len: len as i64,
                                            },
                                        ),
                                    },
                                },
                            },
                        },
                    },
                }
            },
        },
    }
}

/// One of the chunks that a tensor is split in along a dimension.
pub fn tensor_chunk<T>(context: &TorchContext<T>, args: &[Value]) -> (r: VmResult<NarrowPlan>)
    ensures
        narrow_result(r) == tensor_chunk_outcome(context@, args@),
{
    let op: &Option<String> = &context.active_host_op;
    let (handle, tensor) = match sized_arg(context, args, 0, "tensor") {
        Err(e) => {
            return Err(e);
        },
        Ok(pair) => pair,
    };
    let chunks: i64 = match args::int_arg(op, args, 1, "chunks") {
        Err(e) => {
            return Err(e);
        },
        Ok(chunks) => chunks,
    };
    if chunks <= 0 {
        return Err(host_error("chunks must be positive"));
    }
    let raw: i64 = match args::int_arg(op, args, 2, "dim") {
        Err(e) => {
            return Err(e);
        },
        Ok(raw) => raw,
    };
    let dim: usize = match find_dim(&tensor.size, raw) {
        Err(e) => {
            return Err(e);
        },
        Ok(dim) => dim,
    };
    let index: usize = match args::int_arg(op, args, 3, "index") {
        Err(e) => {
            return Err(e);
        },
        Ok(index) => match runtime::non_negative_index(index, "chunk index") {
            Err(e) => {
                return Err(e);
            },
            Ok(index) => index,
        },
    };
    match find_size(&tensor.size, dim) {
        Err(e) => Err(e),
        Ok(total) => match chunk_range(total, chunks, index) {
            Err(e) => Err(e),
            Ok((start, len)) => Ok(NarrowPlan { tensor: handle, dim: dim as i64, start, len }),
        },
    }
}

/// The chunks of a dimension cover it: every position lies in the chunk of one number, which is
/// below the number of chunks, and in no other.
pub proof fn law_chunks_cover(total: int, chunks: int, p: int, index: int)
    requires
        0 < chunks,
        0 <= p < total,
        0 <= index,
    ensures
        ({
            let size = chunk_size(total, chunks);
            let home = p / size;
            &&& 0 < size
            &&& 0 <= home < chunks
            &&& chunk_outcome(total, chunks, home) is Ok
            &&& (chunk_outcome(total, chunks, index) matches Ok((start, len)) ==> (start <= p
                < start + len <==> index == home))
        }),
{
    let size = chunk_size(total, chunks);
    assert(size >= 1 && chunks * size >= total) by (nonlinear_arith)
        requires
            size == (total + chunks - 1) / chunks,
            0 < chunks,
            0 < total,
    ;
    let home = p / size;
    vstd::arithmetic::div_mod::lemma_fundamental_div_mod(p, size);
    assert(size * home == home * size) by (nonlinear_arith);
    assert(home * size <= p < home * size + size);
    assert(home >= 0) by (nonlinear_arith)
        requires
            home * size + size > p,
            p >= 0,
            size >= 1,
    ;
    assert(home < chunks) by (nonlinear_arith)
        requires
            home * size <= p,
            p < total,
            chunks * size >= total,
            size >= 1,
    ;
    if index < home {
        assert(index * size + size <= home * size) by (nonlinear_arith)
            requires
                index + 1 <= home,
                size >= 1,
        ;
    }
    if index > home {
        assert(index * size >= home * size + size) by (nonlinear_arith)
            requires
                index >= home + 1,
                size >= 1,
        ;
    }
}

/// What asking for the end of a tensor gives.
pub open spec fn tensor_tail_outcome<T>(c: ContextView<T>, args: Seq<Value>) -> Result<
    NarrowPlan,
    ErrorView,
> {
    let op = c.active_host_op;
    match sizes_at(c, args, 0, "tensor"@) {
        Err(e) => Err(e),
        Ok((tensor, size)) => match args::int_at(op, args, 1, "dim"@) {
            Err(e) => Err(e),
            Ok(raw) => match args::int_at(op, args, 2, "len"@) {
                Err(e) => Err(e),
                Ok(len) => if len < 0 {
                    Err(ErrorView::Host("tail length must be non-negative"@))
                } else {
                    match dim_outcome(size.len(), raw) {
                        Err(e) => Err(e),
                        Ok(dim) => match size_outcome(size, dim) {
                            Err(e) => Err(e),
                            Ok(total) => {
                                let kept = if len < total {
                                    len
                                } else {
                                    total
                                };
                                Ok(
                                    NarrowPlan {
                                        tensor,
                                        dim: dim as i64,
                                        start: (total - kept) as i64,
                                        len: kept,
                                    },
                                )
                            },
                        },
                    }
                },
            },
        },
    }
}

/// The end of a tensor along a dimension.
pub fn tensor_tail<T>(context: &TorchContext<T>, args: &[Value]) -> (r: VmResult<NarrowPlan>)
    ensures
        narrow_result(r) == tensor_tail_outcome(context@, args@),
{
    let op: &Option<String> = &context.active_host_op;
    let (handle, tensor) = match sized_arg(context, args, 0, "tensor") {
        Err(e) => {
            return Err(e);
        },
        Ok(pair) => pair,
    };
    let raw: i64 = match args::int_arg(op, args, 1, "dim") {
        Err(e) => {
            return Err(e);
        },
        Ok(raw) => raw,
    };
    let len: i64 = match args::int_arg(op, args, 2, "len") {
        Err(e) => {
            return Err(e);
        },
        Ok(len) => len,
    };
    if len < 0 {
        return Err(host_error("tail length must be non-negative"));
    }
    let dim: usize = match find_dim(&tensor.size, raw) {
        Err(e) => {
            return Err(e);
        },
        Ok(dim) => dim,
    };
    match find_size(&tensor.size, dim) {
        Err(e) => Err(e),
        Ok(total) => {
            let kept: i64 = if len < total {
                len
            } else {
                total
            };
            Ok(NarrowPlan { tensor: handle, dim: dim as i64, start: total - kept, len: kept })
        },
    }
}

/// Half of the last size, which has to be even; `name` stands in the message.
pub open spec fn even_half(size: Seq<i64>, name: Seq<char>) -> Result<i64, ErrorView> {
    if size.len() == 0 {
        Err(ErrorView::Host(name + " input must have at least one dimension"@))
    } else if size.last() % 2 != 0 {
        Err(ErrorView::Host(name + " input last dimension must be even"@))
    } else {
        Ok((size.last() / 2) as i64)
    }
}

/// Half of the last size, which has to be even.
pub fn half_of_last(size: &Vec<i64>, name: &str) -> (r: VmResult<i64>)
    ensures
        match r {
            Ok(n) => even_half(size@, name@) == Ok::<i64, ErrorView>(n),
            Err(e) => even_half(size@, name@) == Err::<i64, ErrorView>(e@),
        },
{
    if size.len() == 0 {
        return Err(
            host_error(text::join2(name, " input must have at least one dimension").as_str()),
        );
    }
    let last: i64 = size[size.len() - 1];
    let (half, rest) = halve(last);
    if rest != 0 {
        return Err(
            host_error(text::join2(name, " input last dimension must be even").as_str()),
        );
    }
    Ok(half)
}

/// Half of a number, rounded down, and what is left over.
fn halve(n: i64) -> (r: (i64, i64))
    ensures
        n == r.0 * 2 + r.1,
        0 <= r.1 <= 1,
{
    if n >= 0 {
        (n / 2, n % 2)
    } else if n == i64::MIN {
        (-4611686018427387904, 0)
    } else {
        let m: i64 = -n;
        if m % 2 == 0 {
            (-(m / 2), 0)
        } else {
            (-(m / 2) - 1, 1)
        }
    }
}

/// A tensor that is split in two halves along its last dimension.
#[derive(Clone, Copy, Debug, PartialEq, Eq, Structural)]
pub struct HalvesPlan {
    pub tensor: i64,
    pub half: i64,
}

/// Plans the gated activation of a tensor: the first half of its last dimension gates the second.
pub fn tensor_swiglu<T>(context: &TorchContext<T>, args: &[Value]) -> (r: VmResult<HalvesPlan>)
    ensures
        match sizes_at(context@, args@, 0, "tensor"@) {
            Err(e) => r is Err && r->Err_0@ == e,
            Ok((tensor, size)) => match even_half(size, "swiglu"@) {
                Err(e) => r is Err && r->Err_0@ == e,
                Ok(half) => r is Ok && r->Ok_0 == (HalvesPlan { tensor, half }),
            },
        },
{
    match sized_arg(context, args, 0, "tensor") {
        Err(e) => Err(e),
        Ok((handle, tensor)) => match half_of_last(&tensor.size, "swiglu") {
            Err(e) => Err(e),
            Ok(half) => Ok(HalvesPlan { tensor: handle, half }),
        },
    }
}

/// A mask of attention: its sizes, and whether each place is open.
#[derive(Debug)]
pub struct MaskPlan {
    pub size: Vec<i64>,
    pub open: Vec<bool>,
}

/// Rows and columns of an attention mask.
pub open spec fn mask_sizes(size: Seq<i64>) -> Result<(int, int), ErrorView> {
    if size.len() != 2 {
        Err(ErrorView::Host("attention_mask must have rank 2"@))
    } else if size[0] < 0 || size[0] > usize::MAX {
        Err(ErrorView::Host("batch size out of range"@))
    } else if size[1] < 0 || size[1] > usize::MAX {
        Err(ErrorView::Host("seq_len out of range"@))
    } else {
        Ok((size[0] as int, size[1] as int))
    }
}

/// Rows and columns of an attention mask.
pub fn attention_mask_sizes(size: &Vec<i64>) -> (r: VmResult<(usize, usize)>)
    ensures
        match r {
            Ok((batch, len)) => mask_sizes(size@) == Ok::<(int, int), ErrorView>(
                (batch as int, len as int),
            ) && batch <= i64::MAX && len <= i64::MAX,
            Err(e) => mask_sizes(size@) == Err::<(int, int), ErrorView>(e@),
        },
{
    if size.len() != 2 {
        return Err(host_error("attention_mask must have rank 2"));
    }
    let batch: i64 = size[0];
    let len: i64 = size[1];
    if batch < 0 || batch as u64 > usize::MAX as u64 {
        return Err(host_error("batch size out of range"));
    }
    if len < 0 || len as u64 > usize::MAX as u64 {
        return Err(host_error("seq_len out of range"));
    }
    Ok((batch as usize, len as usize))
}

/// Whether the query `i` may see the key `j` in the row `b`: the key is no padding, and does not
/// come later.
pub open spec fn causal_open(mask: Seq<i64>, len: int, b: int, i: int, j: int) -> bool {
    mask[b * len + j] != 0 && j <= i
}

/// The places of a causal mask over padded rows.
pub open spec fn causal_places(mask: Seq<i64>, batch: int, len: int) -> Seq<bool> {
    Seq::new(
        (batch * len * len) as nat,
        |k: int| causal_open(mask, len, k / (len * len), (k / len) % len, k % len),
    )
}

proof fn lemma_three(batch: int, len: int, b: int, i: int, j: int)
    requires
        0 <= b < batch,
        0 <= i < len,
        0 <= j < len,
    ensures
        ({
            let k = (b * len + i) * len + j;
            &&& 0 <= k < batch * len * len
            &&& k / (len * len) == b
            &&& (k / len) % len == i
            &&& k % len == j
        }),
{
    let row = b * len + i;
    let k = row * len + j;
    vstd::arithmetic::div_mod::lemma_fundamental_div_mod_converse(row, len, b, i);
    vstd::arithmetic::div_mod::lemma_fundamental_div_mod_converse(k, len, row, j);
    assert(k == b * (len * len) + (i * len + j)) by (nonlinear_arith)
        requires
            k == (b * len + i) * len + j,
    ;
    assert(0 <= i * len + j < len * len) by (nonlinear_arith)
        requires
            0 <= i < len,
            0 <= j < len,
    ;
    vstd::arithmetic::div_mod::lemma_fundamental_div_mod_converse(
        k,
        len * len,
        b,
        i * len + j,
    );
    assert(0 <= k < batch * len * len) by (nonlinear_arith)
        requires
            k == b * (len * len) + (i * len + j),
            0 <= i * len + j < len * len,
            0 <= b < batch,
            len > 0,
    ;
}

/// The causal mask of padded rows; `mask` holds one number for each place of each row, zero for
/// padding.
pub fn tensor_causal_padding_mask(mask: &Vec<i64>, batch: usize, len: usize) -> (r: MaskPlan)
    requires
        mask@.len() == batch * len,
        batch <= i64::MAX,
        len <= i64::MAX,
    ensures
        r.open@ == causal_places(mask@, batch as int, len as int),
        r.size@ == seq![batch as i64, 1i64, len as i64, len as i64],
{
    let total: usize = mask.len();
    let mut open: Vec<bool> = Vec::new();
    let mut b: usize = 0;
    assert(0 * len * len == 0) by (nonlinear_arith);
    while b < batch
        invariant
            mask@.len() == batch * len,
            total == mask@.len(),
            b <= batch,
            open@.len() == (b * len) * len,
            forall|k: int|
                0 <= k < open@.len() ==> #[trigger] open@[k] == causal_places(
                    mask@,
                    batch as int,
                    len as int,
                )[k],
        decreases batch - b,
    {
        assert(b * len + len <= batch * len) by (nonlinear_arith)
            requires
                b < batch,
        ;
        let mut i: usize = 0;
        while i < len
            invariant
                mask@.len() == batch * len,
                total == mask@.len(),
                b < batch,
                b * len + len <= total,
                i <= len,
                open@.len() == (b * len + i) * len,
                forall|k: int|
                    0 <= k < open@.len() ==> #[trigger] open@[k] == causal_places(
                        mask@,
                        batch as int,
                        len as int,
                    )[k],
            decreases len - i,
        {
            let mut j: usize = 0;
            while j < len
                invariant
                    mask@.len() == batch * len,
                    total == mask@.len(),
                    b < batch,
                    b * len + len <= total,
                    i < len,
                    j <= len,
                    open@.len() == (b * len + i) * len + j,
                    forall|k: int|
                        0 <= k < open@.len() ==> #[trigger] open@[k] == causal_places(
                            mask@,
                            batch as int,
                            len as int,
                        )[k],
                decreases len - j,
            {
                proof {
                    lemma_three(batch as int, len as int, b as int, i as int, j as int);
                }
                let row: usize = b * len;
                let visible: bool = mask[row + j] != 0 && j <= i;
                open.push(visible);
                j = j + 1;
            }
            assert((b * len + i) * len + len == (b * len + (i + 1)) * len) by (nonlinear_arith);
            i = i + 1;
        }
        assert(b * len + len == (b + 1) * len) by (nonlinear_arith);
        b = b + 1;
    }
    assert(open@ =~= causal_places(mask@, batch as int, len as int));
    let mut size: Vec<i64> = Vec::new();
    size.push(batch as i64);
    size.push(1);
    size.push(len as i64);
    size.push(len as i64);
    assert(size@ =~= seq![batch as i64, 1i64, len as i64, len as i64]);
    MaskPlan { size, open }
}

/// The mask of padded rows: a place is open where it is no padding.
pub fn tensor_padding_mask(mask: &Vec<i64>, batch: usize, len: usize) -> (r: MaskPlan)
    requires
        batch <= i64::MAX,
        len <= i64::MAX,
    ensures
        r.open@ == Seq::new(mask@.len(), |k: int| mask@[k] != 0),
        r.size@ == seq![batch as i64, 1i64, 1i64, len as i64],
{
    let mut open: Vec<bool> = Vec::new();
    let mut i: usize = 0;
    while i < mask.len()
        invariant
            i <= mask@.len(),
            open@ == Seq::new(mask@.len(), |k: int| mask@[k] != 0).take(i as int),
        decreases mask@.len() - i,
    {
        open.push(mask[i] != 0);
        i = i + 1;
        assert(open@ =~= Seq::new(mask@.len(), |k: int| mask@[k] != 0).take(i as int));
    }
    assert(open@ =~= Seq::new(mask@.len(), |k: int| mask@[k] != 0));
    let mut size: Vec<i64> = Vec::new();
    size.push(batch as i64);
    size.push(1);
    size.push(1);
    size.push(len as i64);
    assert(size@ =~= seq![batch as i64, 1i64, 1i64, len as i64]);
    MaskPlan { size, open }
}

/// The handle, rows and columns of the attention mask that the script gives.
pub fn attention_mask_request<T>(context: &TorchContext<T>, args: &[Value]) -> (r: VmResult<
    (i64, usize, usize),
>)
    ensures
        match sizes_at(context@, args@, 0, "attention_mask"@) {
            Err(e) => r is Err && r->Err_0@ == e,
            Ok((handle, size)) => match mask_sizes(size) {
                Err(e) => r is Err && r->Err_0@ == e,
                Ok((batch, len)) => {
                    &&& r is Ok
                    &&& r->Ok_0.0 == handle
                    &&& r->Ok_0.1 == batch <= i64::MAX
                    &&& r->Ok_0.2 == len <= i64::MAX
                },
            },
        },
{
    match sized_arg(context, args, 0, "attention_mask") {
        Err(e) => Err(e),
        Ok((handle, tensor)) => match attention_mask_sizes(&tensor.size) {
            Err(e) => Err(e),
            Ok((batch, len)) => Ok((handle, batch, len)),
        },
    }
}

/// A dimension counts from the front, or from the back where it is negative; the size of a tensor
/// along it is the one in that place.
pub proof fn law_dimension(size: Seq<i64>, raw: i64)
    requires
        size.len() <= i64::MAX,
        size.len() <= usize::MAX,
    ensures
        0 <= raw < size.len() ==> dim_outcome(size.len(), raw) == Ok::<int, ErrorView>(raw as int)
            && size_outcome(size, raw as int) == Ok::<i64, ErrorView>(size[raw as int]),
        -size.len() <= raw < 0 ==> dim_outcome(size.len(), raw) == Ok::<int, ErrorView>(
            size.len() + raw,
        ) && size_outcome(size, size.len() + raw) == Ok::<i64, ErrorView>(
            size[size.len() + raw],
        ),
        raw < -size.len() ==> dim_outcome(size.len(), raw) is Err,
        raw >= size.len() ==> size_outcome(size, raw as int) is Err,
{
}

/// The size that a script asks for is that of the tensor and the dimension it gives.
pub proof fn law_tensor_size<T>(c: ContextView<T>, args: Seq<Value>, handle: i64, raw: i64)
    requires
        c.wf(),
        args.len() >= 2,
        args[0] == Value::Int(handle),
        args[1] == Value::Int(raw),
        c.tensors.contains_key(handle),
        c.tensors[handle].size@.len() <= usize::MAX,
        c.tensors[handle].size@.len() <= i64::MAX,
        -c.tensors[handle].size@.len() <= raw < c.tensors[handle].size@.len(),
    ensures
        tensor_size_outcome(c, args) == Ok::<ValueView, ErrorView>(
            ValueView::Int(
                if raw < 0 {
                    c.tensors[handle].size@[c.tensors[handle].size@.len() + raw]
                } else {
                    c.tensors[handle].size@[raw as int]
                },
            ),
        ),
{
}

/// Chunks are as small as that number of them allows, each begins where the one before it ends,
/// and only the last can be shorter.
pub proof fn law_chunk_sizes(total: int, chunks: int, index: int)
    requires
        0 < chunks,
        0 < total,
        0 <= index,
    ensures
        chunk_size(total, chunks) * chunks >= total,
        (chunk_size(total, chunks) - 1) * chunks < total,
        chunk_outcome(total, chunks, index) matches Ok((start, len)) ==> {
            &&& start == index * chunk_size(total, chunks)
            &&& 0 < len <= chunk_size(total, chunks)
            &&& start + len <= total
            &&& (len == chunk_size(total, chunks) || start + len == total)
        },
        chunk_outcome(total, chunks, index) is Ok <==> index * chunk_size(total, chunks) < total,
{
    let n = total + chunks - 1;
    let q = n / chunks;
    vstd::arithmetic::div_mod::lemma_fundamental_div_mod(n, chunks);
    assert(chunks * q == q * chunks) by (nonlinear_arith);
    assert((q - 1) * chunks == q * chunks - chunks) by (nonlinear_arith);
    assert(q > 0) by (nonlinear_arith)
        requires
            q * chunks >= total,
            total > 0,
            chunks > 0,
    ;
}

/// A chunk that a script asks for is one of the tensor and along the dimension it gives.
pub proof fn law_chunk_plan<T>(
    c: ContextView<T>,
    args: Seq<Value>,
    handle: i64,
    chunks: i64,
    dim: i64,
    index: i64,
)
    requires
        c.wf(),
        args.len() >= 4,
        args[0] == Value::Int(handle),
        args[1] == Value::Int(chunks),
        args[2] == Value::Int(dim),
        args[3] == Value::Int(index),
        c.tensors.contains_key(handle),
        0 <= dim < c.tensors[handle].size@.len() <= i64::MAX,
        c.tensors[handle].size@.len() <= usize::MAX,
        0 < chunks,
        0 <= index <= usize::MAX,
    ensures
        ({
            let total = c.tensors[handle].size@[dim as int] as int;
            let chunk = chunk_outcome(total, chunks as int, index as int);
            let plan = tensor_chunk_outcome(c, args);
            &&& plan is Ok <==> chunk is Ok
            &&& plan matches Ok(p) ==> p.tensor == handle && p.dim == dim && p.start
                == chunk->Ok_0.0 as i64 && p.len == chunk->Ok_0.1 as i64
        }),
{
}

/// A tail ends where its tensor ends, and is as long as asked for, or as long as the tensor.
pub proof fn law_tail_plan<T>(
    c: ContextView<T>,
    args: Seq<Value>,
    handle: i64,
    dim: i64,
    len: i64,
)
    requires
        c.wf(),
        args.len() >= 3,
        args[0] == Value::Int(handle),
        args[1] == Value::Int(dim),
        args[2] == Value::Int(len),
        c.tensors.contains_key(handle),
        0 <= dim < c.tensors[handle].size@.len() <= i64::MAX,
        c.tensors[handle].size@.len() <= usize::MAX,
        0 <= c.tensors[handle].size@[dim as int],
    ensures
        tensor_tail_outcome(c, args) is Ok <==> len >= 0,
        tensor_tail_outcome(c, args) matches Ok(p) ==> {
            let total = c.tensors[handle].size@[dim as int];
            &&& p.tensor == handle
            &&& p.dim == dim
            &&& p.start + p.len == total
            &&& 0 <= p.start
            &&& (p.len == len && len <= total || p.len == total && len >= total)
        },
{
}

/// Half of the last size is had where that is even, and twice it is that size.
pub proof fn law_half_of_last(size: Seq<i64>, name: Seq<char>)
    ensures
        even_half(size, name) is Ok <==> size.len() > 0 && size[size.len() - 1] % 2 == 0,
        even_half(size, name) matches Ok(half) ==> half + half == size[size.len() - 1],
{
}

/// In a causal mask the place of a token sees another where that is not behind it and is not
/// padding.
pub proof fn law_causal_mask(mask: Seq<i64>, batch: int, len: int, b: int, i: int, j: int)
    requires
        0 <= b < batch,
        0 <= i < len,
        0 <= j < len,
    ensures
        causal_places(mask, batch, len).len() == batch * len * len,
        causal_places(mask, batch, len)[(b * len + i) * len + j] <==> j <= i && mask[b * len + j]
            != 0,
{
    lemma_three(batch, len, b, i, j);
}

/// The sizes of an attention mask are its own two.
pub proof fn law_mask_sizes(size: Seq<i64>)
    ensures
        mask_sizes(size) matches Ok((batch, len)) ==> size.len() == 2 && batch == size[0] && len
            == size[1] && batch >= 0 && len >= 0,
        size.len() == 2 && 0 <= size[0] <= usize::MAX && 0 <= size[1] <= usize::MAX ==> mask_sizes(
            size,
        ) is Ok,
{
}

/// A shape is written as its sizes in order, with commas between them and brackets around.
pub proof fn law_shape_text(size: Seq<i64>, n: i64)
    ensures
        sizes_text(Seq::empty()) == seq!['[', ']'],
        sizes_text(seq![n]) == seq!['['] + text::decimal(n as int) + seq![']'],
        size.len() > 0 ==> sizes_text(size.push(n)) == sizes_text(size).drop_last() + ", "@
            + text::decimal(n as int) + seq![']'],
{
    let none = Seq::<i64>::empty();
    assert(Seq::new(none.len(), |i: int| text::decimal(none[i] as int)) =~= Seq::<
        Seq<char>,
    >::empty());
    assert(sizes_text(none) =~= seq!['[', ']']);
    let one = seq![n];
    assert(Seq::new(one.len(), |i: int| text::decimal(one[i] as int)) =~= seq![
        text::decimal(n as int),
    ]);
    let more = size.push(n);
    let parts = Seq::new(more.len(), |i: int| text::decimal(more[i] as int));
    assert(parts.drop_last() =~= Seq::new(size.len(), |i: int| text::decimal(size[i] as int)));
    if size.len() > 0 {
        assert(sizes_text(more) =~= sizes_text(size).drop_last() + ", "@ + text::decimal(n as int)
            + seq![']']);
    }
}

} // verus!
