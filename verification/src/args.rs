//! The arguments of host functions.
use vstd::prelude::*;
use vstd::string::*;

use crate::context;
use crate::context::{ContextView, TorchContext};
use crate::text;
use crate::value::{host_error, ErrorView, FloatValue, FloatView, Value, VmError, VmResult};

verus! {

/// The name of the type of a value.
pub open spec fn kind_name(value: Value) -> Seq<char> {
    match value {
        Value::Null => "null"@,
        Value::Int(_) => "int"@,
        Value::Float(_) => "float"@,
        Value::Bool(_) => "bool"@,
        Value::String(_) => "string"@,
        Value::Bytes(_) => "bytes"@,
        Value::Array(_) => "array"@,
        Value::Table(_) => "map"@,
    }
}

/// The name of the type of a value.
pub fn value_kind(value: &Value) -> (r: &'static str)
    ensures
        r@ == kind_name(*value),
{
    match value {
        Value::Null => "null",
        Value::Int(_) => "int",
        Value::Float(_) => "float",
        Value::Bool(_) => "bool",
        Value::String(_) => "string",
        Value::Bytes(_) => "bytes",
        Value::Array(_) => "array",
        Value::Table(_) => "map",
    }
}

/// The message on an argument that was not given.
pub open spec fn missing_argument(label: Seq<char>) -> ErrorView {
    ErrorView::Host("missing argument '"@ + label + "'"@)
}

fn missing_argument_error(label: &str) -> (r: VmError)
    ensures
        r@ == missing_argument(label@),
{
    host_error(text::join3("missing argument '", label, "'").as_str())
}

/// The message on an argument of another type than is expected.
pub open spec fn wrong_type(
    op: Option<Seq<char>>,
    label: Seq<char>,
    expected: Seq<char>,
    value: Value,
) -> ErrorView {
    ErrorView::Host(
        "argument '"@ + label + (match op {
            Some(op) => "' in "@ + op,
            None => "'"@,
        }) + " must be "@ + expected + ", got "@ + kind_name(value),
    )
}

/// The error on an argument of another type than is expected.
pub fn host_arg_type_error(op: &Option<String>, label: &str, expected: &str, value: &Value) -> (r:
    VmError)
    ensures
        r@ == wrong_type(context::opt_text(*op), label@, expected@, *value),
{
    let mut message: String = text::join2("argument '", label);
    match op {
        Some(op) => {
            message.append(text::join2("' in ", op.as_str()).as_str());
        },
        None => {
            message.append("'");
        },
    }
    message.append(" must be ");
    message.append(expected);
    message.append(", got ");
    message.append(value_kind(value));
    host_error(message.as_str())
}

/// The argument in place `i`.
pub open spec fn arg_at(args: Seq<Value>, i: int, label: Seq<char>) -> Result<Value, ErrorView> {
    if i < args.len() {
        Ok(args[i])
    } else {
        Err(missing_argument(label))
    }
}

/// The integer in place `i`.
pub open spec fn int_at(
    op: Option<Seq<char>>,
    args: Seq<Value>,
    i: int,
    label: Seq<char>,
) -> Result<i64, ErrorView> {
    match arg_at(args, i, label) {
        Err(e) => Err(e),
        Ok(Value::Int(v)) => Ok(v),
        Ok(other) => Err(wrong_type(op, label, "int"@, other)),
    }
}

/// The boolean in place `i`.
pub open spec fn bool_at(
    op: Option<Seq<char>>,
    args: Seq<Value>,
    i: int,
    label: Seq<char>,
) -> Result<bool, ErrorView> {
    match arg_at(args, i, label) {
        Err(e) => Err(e),
        Ok(Value::Bool(v)) => Ok(v),
        Ok(other) => Err(wrong_type(op, label, "bool"@, other)),
    }
}

/// A number where a floating-point number is asked for; an integer stands for its value.
#[derive(Debug)]
pub enum FloatArg {
    Float(FloatValue),
    Int(i64),
}

/// The model of a [`FloatArg`].
pub enum FloatArgView {
    Float(FloatView),
    Int(i64),
}

impl View for FloatArg {
    type V = FloatArgView;

    open spec fn view(&self) -> FloatArgView {
        match self {
            FloatArg::Float(v) => FloatArgView::Float(v@),
            FloatArg::Int(v) => FloatArgView::Int(*v),
        }
    }
}

/// The number in place `i`.
pub open spec fn float_at(
    op: Option<Seq<char>>,
    args: Seq<Value>,
    i: int,
    label: Seq<char>,
) -> Result<FloatArgView, ErrorView> {
    match arg_at(args, i, label) {
        Err(e) => Err(e),
        Ok(Value::Float(v)) => Ok(FloatArgView::Float(v@)),
        Ok(Value::Int(v)) => Ok(FloatArgView::Int(v)),
        Ok(other) => Err(wrong_type(op, label, "float"@, other)),
    }
}

/// The text in place `i`.
pub open spec fn string_at(
    op: Option<Seq<char>>,
    args: Seq<Value>,
    i: int,
    label: Seq<char>,
) -> Result<Seq<char>, ErrorView> {
    match arg_at(args, i, label) {
        Err(e) => Err(e),
        Ok(Value::String(v)) => Ok(v@),
        Ok(other) => Err(wrong_type(op, label, "string"@, other)),
    }
}

/// The argument in place `index`.
pub fn arg<'a>(args: &'a [Value], index: usize, label: &str) -> (r: VmResult<&'a Value>)
    ensures
        match r {
            Ok(v) => arg_at(args@, index as int, label@) == Ok::<Value, ErrorView>(*v),
            Err(e) => arg_at(args@, index as int, label@) == Err::<Value, ErrorView>(e@),
        },
{
    if index < args.len() {
        Ok(&args[index])
    } else {
        Err(missing_argument_error(label))
    }
}

/// The integer in place `index`.
pub fn int_arg(op: &Option<String>, args: &[Value], index: usize, label: &str) -> (r: VmResult<i64>)
    ensures
        match r {
            Ok(v) => int_at(context::opt_text(*op), args@, index as int, label@) == Ok::<
                i64,
                ErrorView,
            >(v),
            Err(e) => int_at(context::opt_text(*op), args@, index as int, label@) == Err::<
                i64,
                ErrorView,
            >(e@),
        },
{
    match arg(args, index, label) {
        Err(e) => Err(e),
        Ok(Value::Int(v)) => Ok(*v),
        Ok(other) => Err(host_arg_type_error(op, label, "int", other)),
    }
}

/// The boolean in place `index`.
pub fn bool_arg(op: &Option<String>, args: &[Value], index: usize, label: &str) -> (r: VmResult<
    bool,
>)
    ensures
        match r {
            Ok(v) => bool_at(context::opt_text(*op), args@, index as int, label@) == Ok::<
                bool,
                ErrorView,
            >(v),
            Err(e) => bool_at(context::opt_text(*op), args@, index as int, label@) == Err::<
                bool,
                ErrorView,
            >(e@),
        },
{
    match arg(args, index, label) {
        Err(e) => Err(e),
        Ok(Value::Bool(v)) => Ok(*v),
        Ok(other) => Err(host_arg_type_error(op, label, "bool", other)),
    }
}

/// The number in place `index`.
pub fn float_arg(op: &Option<String>, args: &[Value], index: usize, label: &str) -> (r: VmResult<
    FloatArg,
>)
    ensures
        match r {
            Ok(v) => float_at(context::opt_text(*op), args@, index as int, label@) == Ok::<
                FloatArgView,
                ErrorView,
            >(v@),
            Err(e) => float_at(context::opt_text(*op), args@, index as int, label@) == Err::<
                FloatArgView,
                ErrorView,
            >(e@),
        },
{
    match arg(args, index, label) {
        Err(e) => Err(e),
        Ok(Value::Float(v)) => Ok(FloatArg::Float(v.clone())),
        Ok(Value::Int(v)) => Ok(FloatArg::Int(*v)),
        Ok(other) => Err(host_arg_type_error(op, label, "float", other)),
    }
}

/// The text in place `index`.
pub fn string_arg<'a>(op: &Option<String>, args: &'a [Value], index: usize, label: &str) -> (r:
    VmResult<&'a str>)
    ensures
        match r {
            Ok(v) => string_at(context::opt_text(*op), args@, index as int, label@) == Ok::<
                Seq<char>,
                ErrorView,
            >(v@),
            Err(e) => string_at(context::opt_text(*op), args@, index as int, label@) == Err::<
                Seq<char>,
                ErrorView,
            >(e@),
        },
{
    match arg(args, index, label) {
        Err(e) => Err(e),
        Ok(Value::String(v)) => Ok(v.as_str()),
        Ok(other) => Err(host_arg_type_error(op, label, "string", other)),
    }
}

/// What a parameter of a host function takes.
#[derive(Clone, Copy, Debug, PartialEq, Eq, Structural)]
pub enum ArgKind {
    Tensor,
    Int,
    Bool,
    Float,
    Text,
}

/// A parameter of a host function.
#[derive(Clone, Copy, Debug)]
pub struct Param {
    pub kind: ArgKind,
    pub label: &'static str,
}

/// The model of a [`Param`].
pub type ParamView = (ArgKind, Seq<char>);

/// The models of parameters.
pub open spec fn param_views(s: Seq<Param>) -> Seq<ParamView> {
    Seq::new(s.len(), |i: int| (s[i].kind, s[i].label@))
}

/// An argument of a host function, read and checked. A tensor stands as its handle.
#[derive(Debug)]
pub enum Arg {
    Tensor(i64),
    Int(i64),
    Bool(bool),
    Float(FloatArg),
    Text(String),
}

/// The model of an [`Arg`].
pub enum ArgView {
    Tensor(i64),
    Int(i64),
    Bool(bool),
    Float(FloatArgView),
    Text(Seq<char>),
}

impl View for Arg {
    type V = ArgView;

    open spec fn view(&self) -> ArgView {
        match self {
            Arg::Tensor(v) => ArgView::Tensor(*v),
            Arg::Int(v) => ArgView::Int(*v),
            Arg::Bool(v) => ArgView::Bool(*v),
            Arg::Float(v) => ArgView::Float(v@),
            Arg::Text(v) => ArgView::Text(v@),
        }
    }
}

/// The models of arguments.
pub open spec fn arg_views(s: Seq<Arg>) -> Seq<ArgView> {
    Seq::new(s.len(), |i: int| s[i]@)
}

/// The handle in place `i`, where it names a tensor.
pub open spec fn tensor_at<T>(
    c: ContextView<T>,
    args: Seq<Value>,
    i: int,
    label: Seq<char>,
) -> Result<i64, ErrorView> {
    match int_at(c.active_host_op, args, i, label) {
        Err(e) => Err(e),
        Ok(h) => match context::tensor_outcome(c, h) {
            Err(e) => Err(e),
            Ok(_) => Ok(h),
        },
    }
}

/// The argument in place `i`, read as the parameter asks.
pub open spec fn read_at<T>(
    c: ContextView<T>,
    args: Seq<Value>,
    i: int,
    param: ParamView,
) -> Result<ArgView, ErrorView> {
    let op = c.active_host_op;
    match param.0 {
        ArgKind::Tensor => match tensor_at(c, args, i, param.1) {
            Ok(v) => Ok(ArgView::Tensor(v)),
            Err(e) => Err(e),
        },
        ArgKind::Int => match int_at(op, args, i, param.1) {
            Ok(v) => Ok(ArgView::Int(v)),
            Err(e) => Err(e),
        },
        ArgKind::Bool => match bool_at(op, args, i, param.1) {
            Ok(v) => Ok(ArgView::Bool(v)),
            Err(e) => Err(e),
        },
        ArgKind::Float => match float_at(op, args, i, param.1) {
            Ok(v) => Ok(ArgView::Float(v)),
            Err(e) => Err(e),
        },
        ArgKind::Text => match string_at(op, args, i, param.1) {
            Ok(v) => Ok(ArgView::Text(v)),
            Err(e) => Err(e),
        },
    }
}

/// The first `n` arguments, read as the parameters ask; the first that cannot be read decides.
pub open spec fn read_args<T>(
    c: ContextView<T>,
    args: Seq<Value>,
    params: Seq<ParamView>,
    n: nat,
) -> Result<Seq<ArgView>, ErrorView>
    decreases n,
{
    if n == 0 {
        Ok(Seq::empty())
    } else {
        match read_args(c, args, params, (n - 1) as nat) {
            Err(e) => Err(e),
            Ok(done) => match read_at(c, args, n - 1, params[n - 1]) {
                Err(e) => Err(e),
                Ok(v) => Ok(done.push(v)),
            },
        }
    }
}

proof fn lemma_read_error<T>(
    c: ContextView<T>,
    args: Seq<Value>,
    params: Seq<ParamView>,
    n: nat,
    m: nat,
)
    requires
        n <= m,
        read_args(c, args, params, n) is Err,
    ensures
        read_args(c, args, params, m) == read_args(c, args, params, n),
    decreases m,
{
    if n < m {
        lemma_read_error(c, args, params, n, (m - 1) as nat);
    }
}

/// The handle in place `index`, where it names a tensor.
pub fn tensor_arg<T>(context: &TorchContext<T>, args: &[Value], index: usize, label: &str) -> (r:
    VmResult<i64>)
    ensures
        match r {
            Ok(v) => tensor_at(context@, args@, index as int, label@) == Ok::<i64, ErrorView>(v),
            Err(e) => tensor_at(context@, args@, index as int, label@) == Err::<i64, ErrorView>(
                e@,
            ),
        },
{
    match int_arg(&context.active_host_op, args, index, label) {
        Err(e) => Err(e),
        Ok(handle) => match context.tensor(handle) {
            Err(e) => Err(e),
            Ok(_) => Ok(handle),
        },
    }
}

fn read_arg<T>(context: &TorchContext<T>, args: &[Value], index: usize, param: Param) -> (r:
    VmResult<Arg>)
    ensures
        match r {
            Ok(v) => read_at(context@, args@, index as int, (param.kind, param.label@)) == Ok::<
                ArgView,
                ErrorView,
            >(v@),
            Err(e) => read_at(context@, args@, index as int, (param.kind, param.label@)) == Err::<
                ArgView,
                ErrorView,
            >(e@),
        },
{
    let op: &Option<String> = &context.active_host_op;
    match param.kind {
        ArgKind::Tensor => match tensor_arg(context, args, index, param.label) {
            Ok(v) => Ok(Arg::Tensor(v)),
            Err(e) => Err(e),
        },
        ArgKind::Int => match int_arg(op, args, index, param.label) {
            Ok(v) => Ok(Arg::Int(v)),
            Err(e) => Err(e),
        },
        ArgKind::Bool => match bool_arg(op, args, index, param.label) {
            Ok(v) => Ok(Arg::Bool(v)),
            Err(e) => Err(e),
        },
        ArgKind::Float => match float_arg(op, args, index, param.label) {
            Ok(v) => Ok(Arg::Float(v)),
            Err(e) => Err(e),
        },
        ArgKind::Text => match string_arg(op, args, index, param.label) {
            Ok(v) => Ok(Arg::Text(v.to_owned())),
            Err(e) => Err(e),
        },
    }
}

/// Reads the arguments in order, as the parameters ask; the first that cannot be read decides.
pub fn decode_args<T>(context: &TorchContext<T>, args: &[Value], params: &Vec<Param>) -> (r:
    VmResult<Vec<Arg>>)
    ensures
        match r {
            Ok(v) => read_args(context@, args@, param_views(params@), params@.len()) == Ok::<
                Seq<ArgView>,
                ErrorView,
            >(arg_views(v@)),
            Err(e) => read_args(context@, args@, param_views(params@), params@.len()) == Err::<
                Seq<ArgView>,
                ErrorView,
            >(e@),
        },
{
    let ghost models = param_views(params@);
    let mut out: Vec<Arg> = Vec::new();
    let mut i: usize = 0;
    assert(arg_views(out@) =~= Seq::<ArgView>::empty());
    while i < params.len()
        invariant
            i <= params@.len(),
            models == param_views(params@),
            read_args(context@, args@, models, i as nat) == Ok::<Seq<ArgView>, ErrorView>(
                arg_views(out@),
            ),
        decreases params@.len() - i,
    {
        assert(models[i as int] == (params@[i as int].kind, params@[i as int].label@));
        match read_arg(context, args, i, params[i]) {
            Ok(v) => {
                let ghost before = out@;
                out.push(v);
                assert(arg_views(out@) =~= arg_views(before).push(v@));
            },
            Err(e) => {
                proof {
                    lemma_read_error(
                        context@,
                        args@,
                        models,
                        (i + 1) as nat,
                        params@.len(),
                    );
                }
                return Err(e);
            },
        }
        i = i + 1;
    }
    Ok(out)
}

/// The type that a borrowed argument has to have.
pub open spec fn mismatch(expected: Seq<char>) -> ErrorView {
    ErrorView::Mismatch(expected)
}

/// The integer in place `index` of a call that was checked by type.
pub fn borrow_int(args: &[Value], index: usize, label: &str) -> (r: VmResult<i64>)
    ensures
        match (arg_at(args@, index as int, label@), r) {
            (Ok(Value::Int(v)), Ok(w)) => v == w,
            (Ok(Value::Int(v)), Err(_)) => false,
            (Ok(_), Err(e)) => e@ == mismatch("int"@),
            (Err(m), Err(e)) => e@ == m,
            (_, Ok(_)) => false,
        },
{
    match arg(args, index, label) {
        Err(e) => Err(e),
        Ok(Value::Int(v)) => Ok(*v),
        Ok(_) => Err(VmError::TypeMismatch("int".to_owned())),
    }
}

/// The boolean in place `index` of a call that was checked by type.
pub fn borrow_bool(args: &[Value], index: usize, label: &str) -> (r: VmResult<bool>)
    ensures
        match (arg_at(args@, index as int, label@), r) {
            (Ok(Value::Bool(v)), Ok(w)) => v == w,
            (Ok(Value::Bool(v)), Err(_)) => false,
            (Ok(_), Err(e)) => e@ == mismatch("bool"@),
            (Err(m), Err(e)) => e@ == m,
            (_, Ok(_)) => false,
        },
{
    match arg(args, index, label) {
        Err(e) => Err(e),
        Ok(Value::Bool(v)) => Ok(*v),
        Ok(_) => Err(VmError::TypeMismatch("bool".to_owned())),
    }
}

/// The number in place `index` of a call that was checked by type.
pub fn borrow_float(args: &[Value], index: usize, label: &str) -> (r: VmResult<FloatArg>)
    ensures
        match (arg_at(args@, index as int, label@), r) {
            (Ok(Value::Float(v)), Ok(w)) => w@ == FloatArgView::Float(v@),
            (Ok(Value::Int(v)), Ok(w)) => w@ == FloatArgView::Int(v),
            (Ok(Value::Float(_)), Err(_)) => false,
            (Ok(Value::Int(_)), Err(_)) => false,
            (Ok(_), Err(e)) => e@ == mismatch("float"@),
            (Err(m), Err(e)) => e@ == m,
            (_, Ok(_)) => false,
        },
{
    match arg(args, index, label) {
        Err(e) => Err(e),
        Ok(Value::Float(v)) => Ok(FloatArg::Float(v.clone())),
        Ok(Value::Int(v)) => Ok(FloatArg::Int(*v)),
        Ok(_) => Err(VmError::TypeMismatch("float".to_owned())),
    }
}

/// The text in place `index` of a call that was checked by type.
pub fn borrow_text<'a>(args: &'a [Value], index: usize, label: &str) -> (r: VmResult<&'a str>)
    ensures
        match (arg_at(args@, index as int, label@), r) {
            (Ok(Value::String(v)), Ok(w)) => v@ == w@,
            (Ok(Value::String(v)), Err(_)) => false,
            (Ok(_), Err(e)) => e@ == mismatch("string"@),
            (Err(m), Err(e)) => e@ == m,
            (_, Ok(_)) => false,
        },
{
    match arg(args, index, label) {
        Err(e) => Err(e),
        Ok(Value::String(v)) => Ok(v.as_str()),
        Ok(_) => Err(VmError::TypeMismatch("string".to_owned())),
    }
}

/// An argument is the value in its own place: a number, a boolean or a text where that is asked
/// for, and a whole number too where any number is. A value of another type is refused, and so is
/// a place behind the last argument.
pub proof fn law_argument_in_its_place(
    op: Option<Seq<char>>,
    args: Seq<Value>,
    i: int,
    label: Seq<char>,
)
    requires
        0 <= i,
    ensures
        i >= args.len() ==> int_at(op, args, i, label) is Err && bool_at(op, args, i, label) is Err
            && float_at(op, args, i, label) is Err && string_at(op, args, i, label) is Err,
        i < args.len() ==> match args[i] {
            Value::Int(v) => {
                &&& int_at(op, args, i, label) == Ok::<i64, ErrorView>(v)
                &&& float_at(op, args, i, label) == Ok::<FloatArgView, ErrorView>(
                    FloatArgView::Int(v),
                )
                &&& bool_at(op, args, i, label) is Err
                &&& string_at(op, args, i, label) is Err
            },
            Value::Bool(v) => {
                &&& bool_at(op, args, i, label) == Ok::<bool, ErrorView>(v)
                &&& int_at(op, args, i, label) is Err
                &&& float_at(op, args, i, label) is Err
                &&& string_at(op, args, i, label) is Err
            },
            Value::Float(v) => {
                &&& float_at(op, args, i, label) == Ok::<FloatArgView, ErrorView>(
                    FloatArgView::Float(v@),
                )
                &&& int_at(op, args, i, label) is Err
                &&& bool_at(op, args, i, label) is Err
                &&& string_at(op, args, i, label) is Err
            },
            Value::String(v) => {
                &&& string_at(op, args, i, label) == Ok::<Seq<char>, ErrorView>(v@)
                &&& int_at(op, args, i, label) is Err
                &&& bool_at(op, args, i, label) is Err
                &&& float_at(op, args, i, label) is Err
            },
            _ => {
                &&& int_at(op, args, i, label) is Err
                &&& bool_at(op, args, i, label) is Err
                &&& float_at(op, args, i, label) is Err
                &&& string_at(op, args, i, label) is Err
            },
        },
{
}

/// A tensor is taken as an argument where its place holds the handle of one that is there.
pub proof fn law_tensor_argument<T>(
    c: ContextView<T>,
    args: Seq<Value>,
    i: int,
    label: Seq<char>,
)
    requires
        c.wf(),
        0 <= i,
    ensures
        tensor_at(c, args, i, label) matches Ok(h) ==> i < args.len() && args[i] == Value::Int(h)
            && c.tensors.contains_key(h),
        i < args.len() && (args[i] matches Value::Int(h) && c.tensors.contains_key(h))
            ==> tensor_at(c, args, i, label) is Ok,
{
}

/// Whether a value was taken as an argument of a kind, as it stands.
pub open spec fn is_taken<T>(c: ContextView<T>, kind: ArgKind, value: Value, taken: ArgView) -> bool {
    match kind {
        ArgKind::Tensor => value is Int && taken == ArgView::Tensor(value->Int_0)
            && c.tensors.contains_key(value->Int_0),
        ArgKind::Int => value is Int && taken == ArgView::Int(value->Int_0),
        ArgKind::Bool => value is Bool && taken == ArgView::Bool(value->Bool_0),
        ArgKind::Float => (value is Int && taken == ArgView::Float(
            FloatArgView::Int(value->Int_0),
        )) || (value is Float && taken == ArgView::Float(FloatArgView::Float(value->Float_0@))),
        ArgKind::Text => value is String && taken == ArgView::Text(value->String_0@),
    }
}

/// The arguments that are read are those that were given, each in its own place and of the kind
/// asked for there.
pub proof fn law_arguments_in_their_places<T>(
    c: ContextView<T>,
    args: Seq<Value>,
    params: Seq<ParamView>,
    n: nat,
)
    requires
        c.wf(),
        n <= params.len(),
    ensures
        read_args(c, args, params, n) matches Ok(taken) ==> {
            &&& taken.len() == n
            &&& n <= args.len()
            &&& forall|i: int|
                0 <= i < n ==> is_taken(c, params[i].0, args[i], #[trigger] taken[i])
        },
    decreases n,
{
    if n > 0 {
        law_arguments_in_their_places(c, args, params, (n - 1) as nat);
    }
}

/// Whether a value can be taken as an argument of a kind.
pub open spec fn can_be_taken<T>(c: ContextView<T>, kind: ArgKind, value: Value) -> bool {
    exists|taken: ArgView| is_taken(c, kind, value, taken)
}

proof fn lemma_is_taken<T>(c: ContextView<T>, args: Seq<Value>, i: int, param: ParamView)
    requires
        c.wf(),
        0 <= i < args.len(),
        can_be_taken(c, param.0, args[i]),
    ensures
        read_at(c, args, i, param) is Ok,
{
}

/// Arguments that are all there, each of the kind asked for in its place, are read.
pub proof fn law_fitting_arguments_are_read<T>(
    c: ContextView<T>,
    args: Seq<Value>,
    params: Seq<ParamView>,
    n: nat,
)
    requires
        c.wf(),
        n <= params.len(),
        n <= args.len(),
        forall|i: int|
            0 <= i < n ==> can_be_taken(c, (#[trigger] params[i]).0, args[i]),
    ensures
        read_args(c, args, params, n) is Ok,
    decreases n,
{
    if n > 0 {
        law_fitting_arguments_are_read(c, args, params, (n - 1) as nat);
        let last = params[n - 1];
        lemma_is_taken(c, args, n - 1, last);
    }
}

} // verus!
