//! Tables for rotary position embeddings: how long they have to be, and when they are rebuilt.
use vstd::arithmetic::div_mod::lemma_fundamental_div_mod_converse;
use vstd::prelude::*;
use vstd::string::*;

use crate::args;
use crate::args::{FloatArg, FloatArgView};
use crate::context;
use crate::context::{
    return_tensor, ContextView, HostTensor, Kind, RopeCacheKey, RopeEntry, RopeKind, TorchContext,
};
use crate::runtime;
use crate::value::{host_error, ErrorView, Value, VmResult};

verus! {

/// What a script asks of a rotation table: `len` positions from `start` on.
pub struct RopeRequest {
    pub len: i64,
    pub head_dim: usize,
    pub theta: FloatArg,
    pub start: i64,
    pub end: i64,
}

/// The model of a [`RopeRequest`].
pub struct RopeRequestView {
    pub len: i64,
    pub head_dim: int,
    pub theta: FloatArgView,
    pub start: i64,
    pub end: i64,
}

impl RopeRequest {
    /// The positions follow each other, and the sizes can be those of a tensor.
    pub open spec fn wf(self) -> bool {
        &&& 0 <= self.len
        &&& 0 <= self.start
        &&& self.end == self.start + self.len
        &&& self.head_dim <= i64::MAX
    }
}

impl View for RopeRequest {
    type V = RopeRequestView;

    open spec fn view(&self) -> RopeRequestView {
        RopeRequestView {
            len: self.len,
            head_dim: self.head_dim as int,
            theta: self.theta@,
            start: self.start,
            end: self.end,
        }
    }
}

/// What a script asks of a rotation table, from `start` on.
pub open spec fn request_from<T>(c: ContextView<T>, args: Seq<Value>, start: i64) -> Result<
    RopeRequestView,
    ErrorView,
> {
    let op = c.active_host_op;
    match args::int_at(op, args, 0, "seq_len"@) {
        Err(e) => Err(e),
        Ok(len) => match runtime::index_outcome(len, "seq_len"@) {
            Err(e) => Err(e),
            Ok(_) => match args::int_at(op, args, 1, "head_dim"@) {
                Err(e) => Err(e),
                Ok(dim) => match runtime::index_outcome(dim, "head_dim"@) {
                    Err(e) => Err(e),
                    Ok(head_dim) => match args::float_at(op, args, 2, "theta"@) {
                        Err(e) => Err(e),
                        Ok(theta) => if start < 0 {
                            Err(ErrorView::Host("start must be non-negative"@))
                        } else if start + len > i64::MAX {
                            Err(ErrorView::Host("rope range overflow"@))
                        } else {
                            Ok(
                                RopeRequestView {
                                    len,
                                    head_dim,
                                    theta,
                                    start,
                                    end: (start + len) as i64,
                                },
                            )
                        },
                    },
                },
            },
        },
    }
}

/// What a script asks of a rotation table; `at` says whether it gives the start.
pub open spec fn request_outcome<T>(c: ContextView<T>, args: Seq<Value>, at: bool) -> Result<
    RopeRequestView,
    ErrorView,
> {
    if at {
        match args::int_at(c.active_host_op, args, 3, "start"@) {
            Err(e) => Err(e),
            Ok(start) => request_from(c, args, start),
        }
    } else {
        request_from(c, args, 0)
    }
}

/// The result of reading a request, as a model.
pub open spec fn request_result(r: VmResult<RopeRequest>) -> Result<RopeRequestView, ErrorView> {
    match r {
        Ok(q) => Ok(q@),
        Err(e) => Err(e@),
    }
}

fn read_index(op: &Option<String>, args: &[Value], index: usize, label: &str) -> (r: VmResult<
    (i64, usize),
>)
    ensures
        match args::int_at(context::opt_text(*op), args@, index as int, label@) {
            Err(e) => r is Err && r->Err_0@ == e,
            Ok(n) => match runtime::index_outcome(n, label@) {
                Err(e) => r is Err && r->Err_0@ == e,
                Ok(i) => r is Ok && r->Ok_0.0 == n && r->Ok_0.1 == i,
            },
        },
{
    match args::int_arg(op, args, index, label) {
        Err(e) => Err(e),
        Ok(n) => match runtime::non_negative_index(n, label) {
            Err(e) => Err(e),
            Ok(i) => Ok((n, i)),
        },
    }
}

fn read_from<T>(context: &TorchContext<T>, args: &[Value], start: i64) -> (r: VmResult<RopeRequest>)
    ensures
        request_result(r) == request_from(context@, args@, start),
        r matches Ok(q) ==> q.wf(),
{
    let op: &Option<String> = &context.active_host_op;
    let (len, _) = match read_index(op, args, 0, "seq_len") {
        Err(e) => {
            return Err(e);
        },
        Ok(pair) => pair,
    };
    let (_, head_dim) = match read_index(op, args, 1, "head_dim") {
        Err(e) => {
            return Err(e);
        },
        Ok(pair) => pair,
    };
    let theta: FloatArg = match args::float_arg(op, args, 2, "theta") {
        Err(e) => {
            return Err(e);
        },
        Ok(theta) => theta,
    };
    if start < 0 {
        return Err(host_error("start must be non-negative"));
    }
    if start > i64::MAX - len {
        return Err(host_error("rope range overflow"));
    }
    Ok(RopeRequest { len, head_dim, theta, start, end: start + len })
}

/// Reads what a script asks of a rotation table; `at` says whether it gives the start.
pub fn rope_request<T>(context: &TorchContext<T>, args: &[Value], at: bool) -> (r: VmResult<
    RopeRequest,
>)
    ensures
        request_result(r) == request_outcome(context@, args@, at),
        r matches Ok(q) ==> q.wf(),
{
    if at {
        match args::int_arg(&context.active_host_op, args, 3, "start") {
            Err(e) => Err(e),
            Ok(start) => read_from(context, args, start),
        }
    } else {
        read_from(context, args, 0)
    }
}

/// The place of the table of a key, or the end.
pub open spec fn entry_index<T>(s: Seq<RopeEntry<T>>, key: RopeCacheKey, from: int) -> int
    decreases s.len() - from,
{
    if from >= s.len() {
        s.len() as int
    } else if s[from].key == key {
        from
    } else {
        entry_index(s, key, from + 1)
    }
}

/// The number of positions that the table of a key holds; none where there is no table.
pub open spec fn table_len<T>(s: Seq<RopeEntry<T>>, key: RopeCacheKey) -> i64 {
    let i = entry_index(s, key, 0);
    if i < s.len() {
        s[i].len
    } else {
        0
    }
}

/// Twice a number, as far as it fits.
pub open spec fn doubled(n: i64) -> int {
    if n * 2 > i64::MAX {
        i64::MAX as int
    } else if n * 2 < i64::MIN {
        i64::MIN as int
    } else {
        n * 2
    }
}

/// The number of positions that a table is made for: at least what is asked, twice what there
/// was, and 128.
pub open spec fn grown_len(current: i64, end: i64) -> int {
    let a = if doubled(current) > end {
        doubled(current)
    } else {
        end as int
    };
    if a > 128 {
        a
    } else {
        128
    }
}

/// The rows of a table that a request gets: `len` of them from the row `start` on, each with
/// `head_dim` columns, of the table at `place`.
#[derive(Clone, Copy, Debug, PartialEq, Eq, Structural)]
pub struct RopePlan {
    pub place: usize,
    pub start: i64,
    pub len: i64,
    pub head_dim: i64,
}

/// What the table of a request is made for.
pub open spec fn key_of(q: RopeRequestView, kind: RopeKind, theta_bits: u32) -> RopeCacheKey {
    RopeCacheKey { kind, head_dim: q.head_dim as usize, theta_bits }
}

/// Whether a request gets the rows of a plan: those of the table that is there, where it is long
/// enough, and else those of one that `build` makes and that is kept.
pub open spec fn planned<T, B: FnOnce(RopeCacheKey, i64) -> T>(
    before: ContextView<T>,
    after: ContextView<T>,
    q: RopeRequestView,
    key: RopeCacheKey,
    build: B,
    plan: RopePlan,
) -> bool {
    let s = before.rope_cache;
    let i = entry_index(s, key, 0);
    &&& plan.place == i
    &&& plan.start == q.start
    &&& plan.len == q.len
    &&& plan.head_dim == q.head_dim
    &&& if i < s.len() && s[i].len >= q.end {
        after == before
    } else {
        built(before, after, key, grown_len(table_len(s, key), q.end) as i64, build)
    }
}

/// Whether a table that `build` can make for a key and a length was kept.
pub open spec fn built<T, B: FnOnce(RopeCacheKey, i64) -> T>(
    before: ContextView<T>,
    after: ContextView<T>,
    key: RopeCacheKey,
    len: i64,
    build: B,
) -> bool {
    exists|table: T| #[trigger]
        call_ensures(build, (key, len), table) && after == (ContextView {
            rope_cache: with_table(before.rope_cache, RopeEntry { key, len, table }),
            ..before
        })
}

fn find_entry<T>(entries: &Vec<RopeEntry<T>>, key: RopeCacheKey) -> (r: usize)
    ensures
        r == entry_index(entries@, key, 0),
        r <= entries@.len(),
        r < entries@.len() ==> entries@[r as int].key == key,
        r == entries@.len() ==> forall|i: int|
            0 <= i < entries@.len() ==> (#[trigger] entries@[i]).key != key,
{
    let mut i: usize = 0;
    while i < entries.len()
        invariant
            i <= entries@.len(),
            entry_index(entries@, key, 0) == entry_index(entries@, key, i as int),
            forall|k: int| 0 <= k < i ==> (#[trigger] entries@[k]).key != key,
        decreases entries@.len() - i,
    {
        if entries[i].key == key {
            return i;
        }
        i = i + 1;
    }
    i
}

/// The tables with one made for a key; the table that it had is gone.
pub open spec fn with_table<T>(s: Seq<RopeEntry<T>>, entry: RopeEntry<T>) -> Seq<RopeEntry<T>> {
    let i = entry_index(s, entry.key, 0);
    if i < s.len() {
        s.update(i, entry)
    } else {
        s.push(entry)
    }
}

fn rope_store<T>(context: &mut TorchContext<T>, entry: RopeEntry<T>)
    requires
        old(context).wf(),
    ensures
        final(context).wf(),
        final(context)@ == (ContextView {
            rope_cache: with_table(old(context)@.rope_cache, entry),
            ..old(context)@
        }),
{
    let ghost before = context@.rope_cache;
    let i: usize = find_entry(&context.rope_cache, entry.key);
    if i < context.rope_cache.len() {
        context.rope_cache[i] = entry;
    } else {
        context.rope_cache.push(entry);
    }
    assert(context@ =~= (ContextView {
        rope_cache: with_table(before, entry),
        ..old(context)@
    }));
}

/// Plans the rows that a request gets; `build` makes a table for a key and a length, where the one
/// that is there is too short.
///
/// A request that ends at the first position makes no table, so there has to be one.
pub fn rope_table<T, B: FnOnce(RopeCacheKey, i64) -> T>(
    context: &mut TorchContext<T>,
    request: &RopeRequest,
    kind: RopeKind,
    theta_bits: u32,
    build: B,
) -> (r: RopePlan)
    requires
        old(context).wf(),
        request.wf(),
        request.end > 0 || entry_index(
            old(context)@.rope_cache,
            key_of(request@, kind, theta_bits),
            0,
        ) < old(context)@.rope_cache.len(),
        forall|key: RopeCacheKey, len: i64| #[trigger] call_requires(build, (key, len)),
    ensures
        final(context).wf(),
        planned(
            old(context)@,
            final(context)@,
            request@,
            key_of(request@, kind, theta_bits),
            build,
            r,
        ),
        r.place < final(context)@.rope_cache.len(),
        final(context)@.rope_cache[r.place as int].key == key_of(request@, kind, theta_bits),
        final(context)@.rope_cache[r.place as int].len >= request.end,
{
    let key: RopeCacheKey = RopeCacheKey { kind, head_dim: request.head_dim, theta_bits };
    let end: i64 = request.end;
    let i: usize = find_entry(&context.rope_cache, key);
    let plan: RopePlan = RopePlan {
        place: i,
        start: request.start,
        len: request.len,
        head_dim: request.head_dim as i64,
    };
    let current: i64 = if i < context.rope_cache.len() {
        context.rope_cache[i].len
    } else {
        0
    };
    if current >= end {
        return plan;
    }
    let twice: i64 = if current > i64::MAX / 2 {
        i64::MAX
    } else if current < i64::MIN / 2 {
        i64::MIN
    } else {
        current * 2
    };
    let target: i64 = if twice > end {
        twice
    } else {
        end
    };
    let len: i64 = if target > 128 {
        target
    } else {
        128
    };
    let table: T = build(key, len);
    assert(call_ensures(build, (key, len), table));
    rope_store(context, RopeEntry { key, len, table });
    plan
}

/// A table that is made serves the request that it was made for, is never shorter than the one
/// before it, and leaves the other tables as they are.
pub proof fn law_rope_table_serves<T>(s: Seq<RopeEntry<T>>, entry: RopeEntry<T>, end: i64)
    requires
        entry.len == grown_len(table_len(s, entry.key), end),
    ensures
        ({
            let after = with_table(s, entry);
            &&& table_len(after, entry.key) >= end
            &&& table_len(after, entry.key) >= table_len(s, entry.key)
            &&& forall|key: RopeCacheKey|
                key != entry.key ==> #[trigger] table_len(after, key) == table_len(s, key)
        }),
{
    let after = with_table(s, entry);
    let i = entry_index(s, entry.key, 0);
    lemma_index(s, entry.key, 0);
    lemma_index(after, entry.key, 0);
    lemma_first(after, entry.key, i, 0);
    assert forall|key: RopeCacheKey| key != entry.key implies #[trigger] table_len(after, key)
        == table_len(s, key) by {
        lemma_same_index(s, after, key, entry.key, i, 0);
        lemma_index(s, key, 0);
    }
}

proof fn lemma_index<T>(s: Seq<RopeEntry<T>>, key: RopeCacheKey, from: int)
    requires
        0 <= from <= s.len(),
    ensures
        from <= entry_index(s, key, from) <= s.len(),
        entry_index(s, key, from) < s.len() ==> s[entry_index(s, key, from)].key == key,
        forall|k: int| from <= k < entry_index(s, key, from) ==> (#[trigger] s[k]).key != key,
    decreases s.len() - from,
{
    if from < s.len() && s[from].key != key {
        lemma_index(s, key, from + 1);
    }
}

proof fn lemma_first<T>(s: Seq<RopeEntry<T>>, key: RopeCacheKey, i: int, from: int)
    requires
        0 <= from <= i < s.len(),
        s[i].key == key,
        forall|k: int| from <= k < i ==> (#[trigger] s[k]).key != key,
    ensures
        entry_index(s, key, from) == i,
    decreases i - from,
{
    if from < i {
        assert(s[from].key != key);
        lemma_first(s, key, i, from + 1);
    }
}

proof fn lemma_same_index<T>(
    s: Seq<RopeEntry<T>>,
    after: Seq<RopeEntry<T>>,
    key: RopeCacheKey,
    changed: RopeCacheKey,
    i: int,
    from: int,
)
    requires
        0 <= from <= s.len(),
        0 <= i <= s.len(),
        key != changed,
        i < s.len() ==> s[i].key == changed && after.len() == s.len(),
        i == s.len() ==> after.len() == s.len() + 1,
        after[i].key == changed,
        forall|k: int| 0 <= k < s.len() && k != i ==> #[trigger] after[k] == s[k],
    ensures
        entry_index(s, key, from) < s.len() ==> entry_index(after, key, from) == entry_index(
            s,
            key,
            from,
        ) && entry_index(s, key, from) != i,
        entry_index(s, key, from) == s.len() ==> entry_index(after, key, from) == after.len(),
    decreases s.len() - from,
{
    if from < s.len() {
        if from != i {
            assert(after[from] == s[from]);
        }
        if s[from].key != key {
            lemma_same_index(s, after, key, changed, i, from + 1);
        }
    } else if from < after.len() {
        assert(after[from].key == changed);
        assert(entry_index(after, key, from + 1) == after.len());
    }
}

/// The frequency that a column of a rotation table turns with: both halves of a row repeat the
/// same ones, and the odd column left over has none.
pub open spec fn column_frequency(head_dim: int, column: int) -> Option<int> {
    let half = head_dim / 2;
    if 0 <= column < half {
        Some(column)
    } else if half <= column < 2 * half {
        Some(column - half)
    } else {
        None
    }
}

/// The frequency that a column of a rotation table turns with.
pub fn rope_frequency(head_dim: usize, column: usize) -> (r: Option<usize>)
    ensures
        column_frequency(head_dim as int, column as int) == (match r {
            Some(i) => Some(i as int),
            None => None,
        }),
{
    let half: usize = head_dim / 2;
    if column < half {
        Some(column)
    } else if column < 2 * half {
        Some(column - half)
    } else {
        None
    }
}

/// What a table for `len` positions holds, row by row: the value of a position and a frequency in
/// each column that turns, and `zero` in the column left over.
pub open spec fn table_values<V>(
    head_dim: int,
    len: int,
    zero: V,
    value: spec_fn(int, int) -> V,
) -> Seq<V> {
    Seq::new(
        (len * head_dim) as nat,
        |k: int|
            match column_frequency(head_dim, k % head_dim) {
                Some(frequency) => value(k / head_dim, frequency),
                None => zero,
            },
    )
}

/// Whether each cell holds what `value` can give for its position and frequency, or `zero`.
pub open spec fn cells_made<V, F: Fn(usize, usize) -> V>(
    head_dim: int,
    zero: V,
    value: F,
    table: Seq<V>,
) -> bool {
    forall|k: int|
        0 <= k < table.len() ==> match column_frequency(head_dim, k % head_dim) {
            Some(f) => call_ensures(
                value,
                ((k / head_dim) as usize, f as usize),
                #[trigger] table[k],
            ),
            None => table[k] == zero,
        }
}

/// Whether a table for `len` positions was made with `value`.
pub open spec fn table_made<V, F: Fn(usize, usize) -> V>(
    len: int,
    head_dim: int,
    zero: V,
    value: F,
    table: Seq<V>,
) -> bool {
    table.len() == len * head_dim && cells_made(head_dim, zero, value, table)
}

/// Where a position and a frequency have one value, a table that was made holds these values.
pub proof fn law_table_made<V, F: Fn(usize, usize) -> V>(
    len: usize,
    head_dim: usize,
    zero: V,
    made: F,
    table: Seq<V>,
    value: spec_fn(int, int) -> V,
)
    requires
        table_made(len as int, head_dim as int, zero, made, table),
        forall|p: usize, f: usize, v: V| #[trigger]
            call_ensures(made, (p, f), v) ==> v == value(p as int, f as int),
    ensures
        table == table_values(head_dim as int, len as int, zero, value),
{
    let hd = head_dim as int;
    let values = table_values(hd, len as int, zero, value);
    assert forall|k: int| 0 <= k < table.len() implies #[trigger] table[k] == values[k] by {
        assert(0 <= k / hd < len && 0 <= k % hd < hd) by (nonlinear_arith)
            requires
                0 <= k < len * hd,
                0 <= hd,
        ;
    }
    assert(table =~= values);
}

/// Makes what a table for `len` positions holds, row by row; `value` gives the value of a position
/// and a frequency.
pub fn build_rope_table<V: Copy, F: Fn(usize, usize) -> V>(
    len: usize,
    head_dim: usize,
    zero: V,
    value: F,
) -> (r: Vec<V>)
    requires
        len * head_dim <= usize::MAX,
        forall|p: usize, f: usize| #[trigger] call_requires(value, (p, f)),
    ensures
        table_made(len as int, head_dim as int, zero, value, r@),
{
    let mut out: Vec<V> = Vec::new();
    let mut position: usize = 0;
    while position < len
        invariant
            position <= len,
            len * head_dim <= usize::MAX,
            forall|p: usize, f: usize| #[trigger] call_requires(value, (p, f)),
            out@.len() == position * head_dim,
            cells_made(head_dim as int, zero, value, out@),
        decreases len - position,
    {
        let mut column: usize = 0;
        while column < head_dim
            invariant
                position < len,
                column <= head_dim,
                forall|p: usize, f: usize| #[trigger] call_requires(value, (p, f)),
                out@.len() == position * head_dim + column,
                cells_made(head_dim as int, zero, value, out@),
            decreases head_dim - column,
        {
            let ghost k = out@.len() as int;
            proof {
                lemma_fundamental_div_mod_converse(
                    k,
                    head_dim as int,
                    position as int,
                    column as int,
                );
            }
            let cell: V = match rope_frequency(head_dim, column) {
                Some(frequency) => value(position, frequency),
                None => zero,
            };
            out.push(cell);
            column = column + 1;
        }
        assert(position * head_dim + head_dim == (position + 1) * head_dim) by (nonlinear_arith);
        position = position + 1;
    }
    out
}

/// The context after the rows of a plan were handed back, and what the script gets.
pub open spec fn rows_returned<T>(
    before: ContextView<T>,
    after: ContextView<T>,
    plan: RopePlan,
    kind: Kind,
    data: T,
    r: VmResult<Value>,
) -> bool {
    &&& r is Ok
    &&& r->Ok_0 == Value::Int(before.next_tensor)
    &&& exists|tensor: HostTensor<T>|
        {
            &&& after == #[trigger] context::with_tensor(before, tensor)
            &&& tensor.size@ == seq![1i64, 1i64, plan.len, plan.head_dim]
            &&& tensor.kind == kind
            &&& tensor.data == data
        }
}

/// Hands the rows of a plan back to the script; `data` holds them, as elements of type `kind`.
pub fn rope_rows<T>(context: &mut TorchContext<T>, plan: RopePlan, kind: Kind, data: T) -> (r:
    VmResult<Value>)
    requires
        old(context).wf(),
        old(context).next_tensor < i64::MAX,
    ensures
        final(context).wf(),
        rows_returned(old(context)@, final(context)@, plan, kind, data, r),
{
    let mut size: Vec<i64> = Vec::new();
    size.push(1);
    size.push(1);
    size.push(plan.len);
    size.push(plan.head_dim);
    assert(size@ =~= seq![1i64, 1i64, plan.len, plan.head_dim]);
    let tensor: HostTensor<T> = HostTensor { size, kind, data };
    let ghost kept = tensor;
    let r: VmResult<Value> = return_tensor(context, tensor);
    assert(context@ == context::with_tensor(old(context)@, kept));
    r
}

/// The rows of a table from the row `start` on.
pub open spec fn rows<V>(table: Seq<V>, head_dim: int, start: int, len: int) -> Seq<V> {
    table.subrange(start * head_dim, (start + len) * head_dim)
}

/// Whether every table holds the values of its key and as many positions as it says; `contents`
/// says what a table holds.
pub open spec fn all_hold<T, V>(
    s: Seq<RopeEntry<T>>,
    contents: spec_fn(T) -> Seq<V>,
    zero: V,
    value: spec_fn(RopeCacheKey, int, int) -> V,
) -> bool {
    forall|i: int| 0 <= i < s.len() ==> holds(#[trigger] s[i], contents, zero, value)
}

/// Whether a table holds the values of its key and as many positions as it says.
pub open spec fn holds<T, V>(
    entry: RopeEntry<T>,
    contents: spec_fn(T) -> Seq<V>,
    zero: V,
    value: spec_fn(RopeCacheKey, int, int) -> V,
) -> bool {
    contents(entry.table) == table_values(
        entry.key.head_dim as int,
        entry.len as int,
        zero,
        |p: int, f: int| value(entry.key, p, f),
    )
}

/// A script that asks for `len` rows of a rotation table from `start` on gets a tensor of that size
/// with the rows from `start` on of the table for `start + len` positions, whatever was asked for
/// before.
///
/// `contents` says what a table or a part of one holds. The tables that are there hold the values
/// of their keys, `build` makes such tables, and `data` holds the rows of the plan.
pub proof fn law_rope_rows<T, V, B: FnOnce(RopeCacheKey, i64) -> T>(
    before: ContextView<T>,
    middle: ContextView<T>,
    after: ContextView<T>,
    q: RopeRequest,
    key: RopeCacheKey,
    build: B,
    plan: RopePlan,
    kind: Kind,
    data: T,
    r: VmResult<Value>,
    contents: spec_fn(T) -> Seq<V>,
    zero: V,
    value: spec_fn(RopeCacheKey, int, int) -> V,
)
    requires
        q.wf(),
        key.head_dim == q.head_dim,
        planned(before, middle, q@, key, build, plan),
        rows_returned(middle, after, plan, kind, data, r),
        all_hold(before.rope_cache, contents, zero, value),
        forall|len: i64, table: T| #[trigger]
            call_ensures(build, (key, len), table) ==> holds(
                RopeEntry { key, len, table },
                contents,
                zero,
                value,
            ),
        contents(data) == rows(
            contents(middle.rope_cache[plan.place as int].table),
            plan.head_dim as int,
            plan.start as int,
            plan.len as int,
        ),
    ensures
        all_hold(after.rope_cache, contents, zero, value),
        r is Ok,
        r->Ok_0 is Int,
        ({
            let whole = table_values(
                q.head_dim as int,
                q.end as int,
                zero,
                |p: int, f: int| value(key, p, f),
            );
            let tensor = after.tensors[r->Ok_0->Int_0];
            &&& after.tensors.contains_key(r->Ok_0->Int_0)
            &&& tensor.size@ == seq![1i64, 1i64, q.len, q.head_dim as i64]
            &&& contents(tensor.data).len() == q.len * q.head_dim
            &&& contents(tensor.data) == rows(
                whole,
                q.head_dim as int,
                q.start as int,
                q.len as int,
            )
            &&& forall|i: int|
                0 <= i < q.len ==> #[trigger] rows(contents(tensor.data), q.head_dim as int, i, 1)
                    == rows(whole, q.head_dim as int, q.start + i, 1)
            &&& rows(whole, q.head_dim as int, 0, q.end as int) == whole
        }),
{
    let s = before.rope_cache;
    let i = entry_index(s, key, 0);
    lemma_index(s, key, 0);
    let entry = middle.rope_cache[i];
    assert(i < middle.rope_cache.len() && entry.key == key && entry.len >= q.end);
    assert forall|k: int| 0 <= k < middle.rope_cache.len() implies holds(
        #[trigger] middle.rope_cache[k],
        contents,
        zero,
        value,
    ) by {
        if k != i {
            assert(middle.rope_cache[k] == s[k]);
        }
    }
    let hd = q.head_dim as int;
    let values = |p: int, f: int| value(key, p, f);
    let whole = table_values(hd, q.end as int, zero, values);
    let table = table_values(hd, entry.len as int, zero, values);
    assert(contents(entry.table) == table);
    assert(q.end * hd <= entry.len * hd && 0 <= q.start * hd <= q.end * hd) by (nonlinear_arith)
        requires
            0 <= q.start <= q.end <= entry.len,
            0 <= hd,
    ;
    assert(q.end * hd - q.start * hd == q.len * hd) by (nonlinear_arith)
        requires
            q.end == q.start + q.len,
    ;
    assert(rows(table, hd, q.start as int, q.len as int) =~= rows(
        whole,
        hd,
        q.start as int,
        q.len as int,
    ));
    let part = rows(whole, hd, q.start as int, q.len as int);
    assert forall|i: int| 0 <= i < q.len implies #[trigger] rows(part, hd, i, 1) == rows(
        whole,
        hd,
        q.start + i,
        1,
    ) by {
        assert(0 <= i * hd <= (i + 1) * hd <= q.len * hd) by (nonlinear_arith)
            requires
                0 <= i < q.len,
                0 <= hd,
        ;
        assert((q.start + i) * hd == q.start * hd + i * hd) by (nonlinear_arith);
        assert((q.start + i + 1) * hd == q.start * hd + (i + 1) * hd) by (nonlinear_arith);
        assert(rows(part, hd, i, 1) =~= rows(whole, hd, q.start + i, 1));
    }
    assert(0 * hd == 0);
    assert(rows(whole, hd, 0, q.end as int) =~= whole);
}

/// Both halves of a row have the same frequencies in the same order; the column left over in a row
/// of odd length has none.
pub proof fn law_column_frequencies(half: int, i: int, odd: bool)
    requires
        0 <= i < half,
    ensures
        ({
            let head_dim = if odd {
                2 * half + 1
            } else {
                2 * half
            };
            &&& column_frequency(head_dim, i) == Some(i)
            &&& column_frequency(head_dim, half + i) == Some(i)
            &&& odd ==> column_frequency(head_dim, 2 * half) is None
        }),
{
}

/// A request for a rotation table is what the script gives: the length, the width of a row, the
/// base and the start, which is the first position where none is given.
pub proof fn law_rope_request<T>(c: ContextView<T>, args: Seq<Value>, at: bool)
    ensures
        request_outcome(c, args, at) matches Ok(q) ==> {
            &&& args.len() >= 3
            &&& args[0] == Value::Int(q.len)
            &&& args[1] is Int && args[1]->Int_0 == q.head_dim
            &&& match q.theta {
                FloatArgView::Int(n) => args[2] == Value::Int(n),
                FloatArgView::Float(f) => args[2] is Float && args[2]->Float_0@ == f,
            }
            &&& q.len >= 0 && q.head_dim >= 0 && q.start >= 0
            &&& q.end == q.start + q.len
            &&& !at ==> q.start == 0
            &&& at ==> args.len() >= 4 && args[3] == Value::Int(q.start)
        },
        args.len() >= 4 && (args[0] is Int && 0 <= args[0]->Int_0 <= usize::MAX) && (args[1] is Int
            && 0 <= args[1]->Int_0 <= usize::MAX) && args[2] is Int && (args[3] is Int && 0
            <= args[3]->Int_0 && args[3]->Int_0 + args[0]->Int_0 <= i64::MAX) ==> request_outcome(
            c,
            args,
            true,
        ) is Ok && request_outcome(c, args, false) is Ok,
{
}

/// A table is made for as many positions as are asked for, or more: at least 128, and twice as many
/// as the table before it had.
pub proof fn law_table_length(current: i64, end: i64)
    requires
        0 <= current,
    ensures
        grown_len(current, end) >= end,
        grown_len(current, end) >= 128,
        grown_len(current, end) <= i64::MAX,
        current <= i64::MAX / 2 ==> grown_len(current, end) >= current + current,
        grown_len(current, end) == end || grown_len(current, end) == 128 || grown_len(current, end)
            == current + current || grown_len(current, end) == i64::MAX,
{
}

/// In a table each row holds the values of its own position: those of the frequencies in order, the
/// same again in the second half, and zero in the column left over.
pub proof fn law_table_cells<V>(
    head_dim: int,
    len: int,
    zero: V,
    value: spec_fn(int, int) -> V,
    position: int,
    i: int,
)
    requires
        0 <= position < len,
        0 <= i < head_dim / 2,
    ensures
        ({
            let table = table_values(head_dim, len, zero, value);
            let row = position * head_dim;
            &&& table.len() == len * head_dim
            &&& table[row + i] == value(position, i)
            &&& table[row + head_dim / 2 + i] == value(position, i)
            &&& head_dim % 2 == 1 ==> table[row + head_dim - 1] == zero
        }),
{
    let half = head_dim / 2;
    let row = position * head_dim;
    assert(0 <= row && row + head_dim <= len * head_dim) by (nonlinear_arith)
        requires
            row == position * head_dim,
            0 <= position < len,
            0 < head_dim,
    ;
    lemma_fundamental_div_mod_converse(row + i, head_dim, position, i);
    lemma_fundamental_div_mod_converse(row + (half + i), head_dim, position, half + i);
    lemma_fundamental_div_mod_converse(row + (head_dim - 1), head_dim, position, head_dim - 1);
}

} // verus!
