use std::time::{Duration, Instant};

use flint_ai::context::{FfcPair, HostTensor, Kind, TorchContext};
use flint_ai::device::Device;
use flint_ai::pair::{pair_global, pair_local, pair_new};
use flint_ai::runtime::{
    non_negative_index, runtime_arg, runtime_arg_float_or, runtime_arg_int, runtime_arg_int_or,
    runtime_arg_or, runtime_compact2, runtime_input, runtime_set_decode_token_count,
    runtime_set_output, runtime_set_text_output, runtime_set_token_count,
    runtime_start_decode_timer, runtime_start_timer, start_timer_at,
};
use flint_ai::value::{FloatValue, Value, VmError};
use flint_ai::weights::{
    return_weight_tensor, weights_get_optional, weights_store, WeightStep,
};

fn tensor(data: &'static str) -> HostTensor<&'static str> {
    HostTensor { size: vec![1], kind: Kind::Float, data }
}

fn context() -> TorchContext<&'static str> {
    TorchContext::new(Device::Cpu, false)
}

fn number(r: Result<Value, VmError>) -> i64 {
    match r {
        Ok(Value::Int(n)) => n,
        other => panic!("expected an integer, got {other:?}"),
    }
}

fn text(r: Result<Value, VmError>) -> String {
    match r {
        Ok(Value::String(s)) => s,
        other => panic!("expected a text, got {other:?}"),
    }
}

fn error(r: Result<Value, VmError>) -> String {
    match r {
        Ok(value) => panic!("expected an error, got {value:?}"),
        Err(error) => error.text().to_string(),
    }
}

fn strings(all: &[&str]) -> Vec<String> {
    all.iter().map(|s| s.to_string()).collect()
}

#[test]
fn tensors_are_found_by_their_handles() {
    let mut context = context();
    let first = context.insert_tensor(tensor("a"));
    let second = context.insert_tensor(tensor("b"));
    assert_eq!((first, second), (1, 2));
    assert_eq!(context.tensor(first).unwrap().data, "a");
    assert_eq!(context.tensor(second).unwrap().data, "b");
    assert_eq!(context.tensor(7).err().unwrap().text(), "unknown tensor handle 7");
    let before = context.enter_host_op("flint::tensor::add");
    assert!(before.is_none());
    assert_eq!(
        context.tensor(7).err().unwrap().text(),
        "unknown tensor handle 7 in flint::tensor::add"
    );
    context.leave_host_op(before);
    assert_eq!(context.tensor(7).err().unwrap().text(), "unknown tensor handle 7");
}

#[test]
fn a_run_on_an_image_has_two_inputs() {
    let mut context = context();
    context.insert_tensor(tensor("old"));
    context.begin(tensor("image"), tensor("mask"), strings(&["weights"]));
    assert_eq!(number(runtime_input(&context, 0)), 1);
    assert_eq!(number(runtime_input(&context, 1)), 2);
    assert_eq!(context.tensor(1).unwrap().data, "image");
    assert_eq!(context.tensor(2).unwrap().data, "mask");
    assert_eq!(error(runtime_input(&context, 2)), "unknown input index 2");
    assert_eq!(error(runtime_input(&context, -1)), "input index must be non-negative");
    assert_eq!(text(runtime_arg(&context, 0)), "weights");
}

#[test]
fn arguments_are_read_by_place() {
    let mut context = context();
    context.begin_args(strings(&["model", "128", "x", "0.25"]));
    assert_eq!(text(runtime_arg(&context, 0)), "model");
    assert_eq!(error(runtime_arg(&context, 9)), "unknown runtime argument 9");
    assert_eq!(error(runtime_arg(&context, -2)), "argument index must be non-negative");
    assert_eq!(number(runtime_arg_int(&context, 1)), 128);
    assert_eq!(
        error(runtime_arg_int(&context, 2)),
        "runtime argument 2 is not an int: invalid digit found in string"
    );
    assert_eq!(error(runtime_arg_int(&context, 9)), "unknown runtime argument 9");
    assert_eq!(number(runtime_arg_int_or(&context, 9, 5)), 5);
    assert_eq!(number(runtime_arg_int_or(&context, 1, 5)), 128);
    assert_eq!(
        error(runtime_arg_int_or(&context, 2, 5)),
        "runtime argument 2 is not an int: invalid digit found in string"
    );
    assert_eq!(text(runtime_arg_or(&context, 9, "fallback")), "fallback");
    assert_eq!(text(runtime_arg_or(&context, 2, "fallback")), "x");
    match runtime_arg_float_or(&context, 3, FloatValue::Bits(0)) {
        Ok(Value::Float(FloatValue::Literal(s))) => assert_eq!(s.parse::<f64>().unwrap(), 0.25),
        other => panic!("unexpected {other:?}"),
    }
    match runtime_arg_float_or(&context, 9, FloatValue::Bits(1.5f64.to_bits())) {
        Ok(Value::Float(FloatValue::Bits(b))) => assert_eq!(f64::from_bits(b), 1.5),
        other => panic!("unexpected {other:?}"),
    }
    assert_eq!(
        error(runtime_arg_float_or(&context, 2, FloatValue::Bits(0))),
        "runtime argument 2 is not a float: invalid float literal"
    );
    assert_eq!(non_negative_index(3, "place").unwrap(), 3);
    assert_eq!(
        non_negative_index(-1, "place").unwrap_err().text(),
        "place must be non-negative"
    );
}

#[test]
fn a_run_hands_its_output_back_and_leaves_nothing() {
    let mut context = context();
    context.begin(tensor("image"), tensor("mask"), Vec::new());
    assert_eq!(
        context.finish().err().unwrap(),
        "RustScript did not publish an output tensor"
    );
    let out = context.insert_tensor(tensor("out"));
    assert_eq!(error(runtime_set_output(&mut context, 9)), "unknown tensor handle 9");
    assert!(matches!(runtime_set_output(&mut context, out), Ok(Value::Bool(true))));
    assert_eq!(context.finish().unwrap().data, "out");
    assert_eq!(context.tensor(1).err().unwrap().text(), "unknown tensor handle 1");
    assert_eq!(error(runtime_input(&context, 0)), "unknown input index 0");
}

#[test]
fn a_dropped_output_is_not_found() {
    let mut context = context();
    context.begin_args(Vec::new());
    context.output = Some(5);
    assert_eq!(
        context.finish().err().unwrap(),
        "RustScript returned unknown tensor handle 5"
    );
}

#[test]
fn texts_and_counts_are_handed_back() {
    let mut context = context();
    context.begin_args(Vec::new());
    assert!(matches!(runtime_start_timer(&mut context), Ok(Value::Bool(true))));
    assert!(matches!(runtime_start_decode_timer(&mut context), Ok(Value::Bool(true))));
    assert_eq!(
        error(runtime_set_token_count(&mut context, -1)),
        "generated token count must be non-negative"
    );
    assert_eq!(
        error(runtime_set_decode_token_count(&mut context, -1)),
        "decode token count must be non-negative"
    );
    runtime_set_token_count(&mut context, 12).unwrap();
    runtime_set_decode_token_count(&mut context, 11).unwrap();
    runtime_set_text_output(&mut context, "done").unwrap();
    let output = context.finish_text();
    assert_eq!(output.text, "done");
    assert_eq!(output.generated_tokens, Some(12));
    assert_eq!(output.decode_tokens, Some(11));
    assert!(output.elapsed.is_some() && output.decode_elapsed.is_some());
    let again = context.finish_text();
    assert_eq!(again.text, "");
    assert!(again.generated_tokens.is_none() && again.elapsed.is_none());
}

#[test]
fn the_timer_measures_from_its_start() {
    let mut context = context();
    context.begin_args(Vec::new());
    let start = Instant::now().checked_sub(Duration::from_secs(5)).unwrap();
    start_timer_at(&mut context, start).unwrap();
    assert!(context.finish_text().elapsed.unwrap() >= Duration::from_secs(5));
}

#[test]
fn starting_the_timer_forgets_counts() {
    let mut context = context();
    context.begin_args(Vec::new());
    runtime_set_token_count(&mut context, 3).unwrap();
    runtime_start_timer(&mut context).unwrap();
    assert!(context.finish_text().generated_tokens.is_none());
}

#[test]
fn a_new_run_begins_afresh_with_the_same_weights() {
    let mut context = context();
    context.begin_args(strings(&["one"]));
    weights_store(&mut context, "w", None, vec![("a".to_string(), tensor("a"))]).unwrap();
    context.insert_tensor(tensor("t"));
    runtime_set_text_output(&mut context, "text").unwrap();
    context.begin_args(strings(&["two"]));
    assert_eq!(text(runtime_arg(&context, 0)), "two");
    assert_eq!(context.weight("a").unwrap().data, "a");
    assert_eq!(context.weight("b").err().unwrap().text(), "missing weight 'b'");
    assert_eq!(context.insert_tensor(tensor("t")), 1);
    assert_eq!(context.finish_text().text, "");
}

#[test]
fn pairs_give_their_halves_back() {
    let mut context = context();
    context.begin_args(Vec::new());
    let local = context.insert_tensor(tensor("l"));
    let global = context.insert_tensor(tensor("g"));
    let pair = number(pair_new(&mut context, local, global));
    assert_eq!(pair, 1);
    assert_eq!(number(pair_local(&context, pair)), local);
    assert_eq!(number(pair_global(&context, pair)), global);
    assert_eq!(error(pair_local(&context, 4)), "unknown FFC pair handle 4");
    assert_eq!(context.insert_pair(FfcPair { local: 5, global: 6 }), 2);
    assert_eq!(context.pair(2).unwrap(), FfcPair { local: 5, global: 6 });
}

#[test]
fn compacting_keeps_roots_alone() {
    let mut context = context();
    context.begin(tensor("image"), tensor("mask"), Vec::new());
    let kept = context.insert_tensor(tensor("kept"));
    let dropped = context.insert_tensor(tensor("dropped"));
    let out = context.insert_tensor(tensor("out"));
    runtime_set_output(&mut context, out).unwrap();
    let weight = number(return_weight_tensor(&mut context, "w", tensor("w")));
    pair_new(&mut context, kept, out).unwrap();
    assert_eq!(number(runtime_compact2(&mut context, kept, kept)), 5);
    for handle in [1, 2, kept, out, weight] {
        assert!(context.tensor(handle).is_ok());
    }
    assert!(context.tensor(dropped).is_err());
    assert_eq!(error(pair_local(&context, 1)), "unknown FFC pair handle 1");
}

#[test]
fn missing_weights_have_handles_below_zero() {
    let mut context = context();
    context.begin_args(Vec::new());
    let name = [Value::String("bias".to_string())];
    let first = match weights_get_optional(&mut context, &name) {
        Ok(WeightStep::Done(Value::Int(n))) => n,
        _ => panic!("expected a handle"),
    };
    assert_eq!(first, -1);
    assert_eq!(
        context.tensor(first).err().unwrap().text(),
        "missing optional weight 'bias'"
    );
}

#[test]
fn host_functions_are_counted() {
    let mut context: TorchContext<&'static str> = TorchContext::new(Device::Cpu, true);
    assert!(context.host_op_profile().is_none());
    context.record_host_op("a", 5);
    context.record_host_op("b", 30);
    context.record_host_op("a", 7);
    let profile = context.host_op_profile().unwrap();
    let lines: Vec<(&str, u64, u128)> =
        profile.iter().map(|s| (s.name.as_str(), s.count, s.nanos)).collect();
    assert_eq!(lines, [("b", 1, 30), ("a", 2, 12)]);
    let mut quiet = self::context();
    quiet.record_host_op("a", 5);
    assert!(quiet.host_op_profile().is_none());
}
