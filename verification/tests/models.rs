use flint_ai::context::{HostTensor, Kind, TorchContext};
use flint_ai::device::Device;
use flint_ai::value::{Value, VmError};
use flint_ai::weights::{
    find_tensor, is_float_kind, keep_fused_weight, model_kind, read_error, requested_weight_kind,
    return_weight_tensor, weight_file, weight_files, weight_kind_or, weight_listing,
    weight_source, weights_get, weights_get_indexed, weights_get_optional, weights_get_or,
    weights_load, weights_store, LoadPlan, WeightSource, WeightStep,
};

fn tensor(data: &'static str) -> HostTensor<&'static str> {
    HostTensor { size: vec![1], kind: Kind::Float, data }
}

fn strings(all: &[&str]) -> Vec<String> {
    all.iter().map(|s| s.to_string()).collect()
}

fn named(name: &str) -> Vec<Value> {
    vec![Value::String(name.to_string())]
}

fn number(r: Result<Value, VmError>) -> i64 {
    match r {
        Ok(Value::Int(n)) => n,
        other => panic!("expected an integer, got {other:?}"),
    }
}

fn with_weights(names: &[&'static str]) -> TorchContext<&'static str> {
    let mut context = TorchContext::new(Device::Cpu, false);
    context.begin_args(Vec::new());
    let tensors = names.iter().map(|name| (name.to_string(), tensor(name))).collect();
    assert_eq!(
        number(weights_store(&mut context, "dir/model", Some(Kind::Float), tensors)),
        names.len() as i64
    );
    context
}

#[test]
fn the_weight_type_is_set_by_name() {
    assert_eq!(requested_weight_kind(None), Ok(Some(Kind::Float)));
    for name in ["", "native", "AUTO"] {
        assert_eq!(requested_weight_kind(Some(name)), Ok(None));
    }
    for name in ["half", "fp16", "F16"] {
        assert_eq!(requested_weight_kind(Some(name)), Ok(Some(Kind::Half)));
    }
    for name in ["bf16", "bfloat16"] {
        assert_eq!(requested_weight_kind(Some(name)), Ok(Some(Kind::BFloat16)));
    }
    for name in ["float", "fp32", "f32"] {
        assert_eq!(requested_weight_kind(Some(name)), Ok(Some(Kind::Float)));
    }
    assert_eq!(
        requested_weight_kind(Some("Int8")).unwrap_err(),
        "KOHARU_TORCH_WEIGHT_KIND must be native, half, bf16, or float, got 'int8'"
    );
    assert_eq!(weight_kind_or(Some("half"), Kind::BFloat16), Kind::Half);
    assert_eq!(weight_kind_or(Some("native"), Kind::BFloat16), Kind::BFloat16);
    assert_eq!(weight_kind_or(Some("int8"), Kind::BFloat16), Kind::BFloat16);
    assert_eq!(weight_kind_or(None, Kind::BFloat16), Kind::Float);
}

#[test]
fn only_floating_point_weights_change_their_type() {
    assert!(is_float_kind(Kind::Half));
    assert!(is_float_kind(Kind::Float8e4m3fnuz));
    assert!(!is_float_kind(Kind::Int64));
    assert!(!is_float_kind(Kind::ComplexFloat));
    assert_eq!(model_kind(Kind::BFloat16, Some(Kind::Half)), Some(Kind::Half));
    assert_eq!(model_kind(Kind::Int64, Some(Kind::Half)), None);
    assert_eq!(model_kind(Kind::BFloat16, None), None);
}

#[test]
fn weight_files_go_by_extension() {
    assert!(weight_file("model.safetensors"));
    assert!(weight_file("a.b.SafeTensors"));
    assert!(!weight_file(".safetensors"));
    assert!(!weight_file("safetensors"));
    assert!(!weight_file("model.safetensors.bak"));
    assert!(!weight_file(".."));
    let names = strings(&["model-2.safetensors", "readme.md", "model-10.safetensors"]);
    assert_eq!(weight_listing(&names), ["model-10.safetensors", "model-2.safetensors"]);
    assert_eq!(
        weight_files("dir", &names).unwrap(),
        ["model-10.safetensors", "model-2.safetensors"]
    );
    assert_eq!(
        weight_files("dir", &strings(&["readme.md"])).unwrap_err().text(),
        "dir contains no safetensors files"
    );
    assert_eq!(read_error("dir", "denied").text(), "failed to read dir: denied");
}

#[test]
fn the_first_tensor_of_a_name_counts() {
    let names = strings(&["a", "b", "a"]);
    assert_eq!(find_tensor(&names, "a", "f").unwrap(), 0);
    assert_eq!(find_tensor(&names, "b", "f").unwrap(), 1);
    assert_eq!(
        find_tensor(&names, "c", "f").unwrap_err().text(),
        "missing tensor 'c' in f"
    );
}

#[test]
fn weights_are_read_once() {
    let mut context: TorchContext<&'static str> = TorchContext::new(Device::Cpu, false);
    match weights_load(&mut context, &named("dir/model"), None) {
        Ok(LoadPlan::Read { path, kind }) => {
            assert_eq!((path.as_str(), kind), ("dir/model", Some(Kind::Float)))
        }
        _ => panic!("expected a read"),
    }
    let mut context = with_weights(&["a", "b"]);
    context.begin_args(Vec::new());
    match weights_load(&mut context, &named("dir/model"), None) {
        Ok(LoadPlan::Loaded(Value::Int(count))) => assert_eq!(count, 2),
        _ => panic!("expected the weights to be there"),
    }
    match weights_load(&mut context, &named("dir/./model"), Some("float")) {
        Ok(LoadPlan::Loaded(Value::Int(count))) => assert_eq!(count, 2),
        _ => panic!("the same path was spelled otherwise"),
    }
    assert!(matches!(
        weights_load(&mut context, &named("dir/other"), None),
        Ok(LoadPlan::Read { .. })
    ));
    assert!(matches!(
        weights_load(&mut context, &named("dir/model"), Some("half")),
        Ok(LoadPlan::Read { kind: Some(Kind::Half), .. })
    ));
    let refused = weights_load(&mut context, &named("dir/model"), Some("int8"));
    assert_eq!(
        refused.err().unwrap().text(),
        "KOHARU_TORCH_WEIGHT_KIND must be native, half, bf16, or float, got 'int8'"
    );
    let refused = weights_load(&mut context, &[], None);
    assert_eq!(refused.err().unwrap().text(), "missing argument 'path'");
    let refused = weights_load(&mut context, &[Value::Int(1)], None);
    assert_eq!(refused.err().unwrap().text(), "argument 'path' must be string, got int");
}

#[test]
fn the_later_tensor_of_a_name_is_the_weight() {
    let mut context = TorchContext::new(Device::Cpu, false);
    let tensors = vec![("a".to_string(), tensor("one")), ("a".to_string(), tensor("two"))];
    assert_eq!(number(weights_store(&mut context, "p", None, tensors)), 1);
    assert_eq!(context.weight("a").unwrap().data, "two");
}

#[test]
fn a_failed_load_keeps_the_weights() {
    let mut context = with_weights(&["a", "b"]);
    assert!(weights_load(&mut context, &named("no/such/model"), Some("int8")).is_err());
    assert!(weights_load(&mut context, &[], None).is_err());
    assert!(matches!(
        weights_load(&mut context, &named("no/such/model"), None),
        Ok(LoadPlan::Read { path, .. }) if path == "no/such/model"
    ));
    assert_eq!(context.weights_path.as_deref(), Some("dir/model"));
    assert!(context.weights_kind == Some(Kind::Float));
    assert!(matches!(
        weights_load(&mut context, &named("dir/model"), None),
        Ok(LoadPlan::Loaded(Value::Int(2)))
    ));
}

#[test]
fn fused_weights_are_made_of_their_parts() {
    let names = [
        "l.0.self_attn.q_proj.weight",
        "l.0.self_attn.k_proj.weight",
        "l.0.self_attn.v_proj.weight",
        "l.0.feed_forward.w1.weight",
        "l.0.feed_forward.w3.weight",
    ];
    let mut context = with_weights(&names);
    match weight_source(&context, "l.0.self_attn.qkv_proj.weight") {
        Ok(WeightSource::Fused(parts)) => assert_eq!(parts, &names[..3]),
        _ => panic!("expected three parts"),
    }
    match weight_source(&context, "l.0.feed_forward.w1_w3.weight") {
        Ok(WeightSource::Fused(parts)) => assert_eq!(parts, &names[3..]),
        _ => panic!("expected two parts"),
    }
    assert_eq!(
        weight_source(&context, "l.1.self_attn.qkv_proj.weight").err().unwrap().text(),
        "missing weight 'l.1.self_attn.q_proj.weight'"
    );
    assert_eq!(
        weight_source(&context, "norm").err().unwrap().text(),
        "missing weight 'norm'"
    );
    keep_fused_weight(&mut context, "l.0.self_attn.qkv_proj.weight", tensor("qkv"));
    assert!(matches!(
        weight_source(&context, "l.0.self_attn.qkv_proj.weight"),
        Ok(WeightSource::Stored)
    ));
}

#[test]
fn a_weight_keeps_its_handle() {
    let mut context = with_weights(&["a0b"]);
    match weights_get(&context, &named("a0b")) {
        Ok(WeightStep::Take { name, source }) => {
            assert_eq!((name.as_str(), source.as_str()), ("a0b", "a0b"))
        }
        _ => panic!("expected the weight to be taken"),
    }
    let handle = number(return_weight_tensor(&mut context, "a0b", tensor("a0b")));
    let again = weights_get_indexed(
        &context,
        &[Value::String("a".into()), Value::Int(0), Value::String("b".into())],
    );
    assert!(matches!(again, Ok(WeightStep::Done(Value::Int(n))) if n == handle));
    assert_eq!(
        weights_get(&context, &named("c")).err().unwrap().text(),
        "missing weight 'c'"
    );
}

#[test]
fn a_fallback_stands_in_for_a_weight() {
    let mut context = with_weights(&["tied"]);
    let both = [Value::String("head".into()), Value::String("tied".into())];
    match weights_get_or(&mut context, &both) {
        Ok(WeightStep::Take { name, source }) => {
            assert_eq!((name.as_str(), source.as_str()), ("head", "tied"))
        }
        _ => panic!("expected the fallback"),
    }
    let handle = number(return_weight_tensor(&mut context, "tied", tensor("tied")));
    assert!(matches!(
        weights_get_or(&mut context, &both),
        Ok(WeightStep::Done(Value::Int(n))) if n == handle
    ));
    assert!(matches!(
        weights_get(&context, &named("head")),
        Ok(WeightStep::Done(Value::Int(n))) if n == handle
    ));
    let neither = [Value::String("x".into()), Value::String("y".into())];
    assert_eq!(
        weights_get_or(&mut context, &neither).err().unwrap().text(),
        "missing weight 'y'"
    );
}

#[test]
fn an_optional_weight_that_is_there_is_taken() {
    let mut context = with_weights(&["a"]);
    assert!(matches!(
        weights_get_optional(&mut context, &named("a")),
        Ok(WeightStep::Take { .. })
    ));
    assert!(matches!(
        weights_get_optional(&mut context, &named("b")),
        Ok(WeightStep::Done(Value::Int(-1)))
    ));
    assert!(matches!(
        weights_get_optional(&mut context, &named("c")),
        Ok(WeightStep::Done(Value::Int(-2)))
    ));
    assert_eq!(context.tensor(-2).err().unwrap().text(), "missing optional weight 'c'");
}
