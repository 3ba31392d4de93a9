use flint_ai::args::{
    arg, bool_arg, borrow_bool, borrow_float, borrow_int, borrow_text, decode_args, float_arg,
    int_arg, string_arg, tensor_arg, value_kind, Arg, ArgKind, FloatArg,
};
use flint_ai::context::{
    Conv1dStepWeights, HostTensor, Kind, RopeCacheKey, RopeKind, TorchContext,
};
use flint_ai::device::Device;
use flint_ai::nn::{
    cached_conv1d_step_weights, conv1d_fallback, keep_conv1d_step_weights, layer_error,
    linear_mv_enabled, linear_or_mv, nn_apply_rope, nn_apply_rope_pair, nn_batch_norm2d, nn_conv1d,
    nn_conv1d_step, nn_conv2d, nn_conv_transpose2d, nn_layer_norm, nn_linear, nn_swiglu_linear,
    rotary_half_of, LinearMethod,
};
use flint_ai::ops::{params_of, plan_op, TensorOp};
use flint_ai::rope::{
    build_rope_table, rope_frequency, rope_request, rope_rows, rope_table, RopePlan,
};
use flint_ai::shapes::{
    attention_mask_request, attention_mask_sizes, chunk_range, half_of_last, shape_text,
    tensor_causal_padding_mask, tensor_chunk, tensor_padding_mask, tensor_shape, tensor_size,
    tensor_swiglu, tensor_tail,
};
use flint_ai::value::{FloatValue, Value, VmError};
use flint_ai::vl::{
    exact_root, image_lfm2_vl_patches, patch_bytes, picture_error, picture_patches,
    plan_positions, vl_pixel_unshuffle2, vl_siglip2_position_embedding, IMAGE_BYTES,
};
use flint_ai::weights::weights_store;

fn tensor(size: &[i64]) -> HostTensor<u8> {
    HostTensor { size: size.to_vec(), kind: Kind::BFloat16, data: 0 }
}

fn with_sizes(sizes: &[&[i64]]) -> TorchContext<u8> {
    let mut context = TorchContext::new(Device::Cpu, false);
    context.begin_args(Vec::new());
    for size in sizes {
        context.insert_tensor(tensor(size));
    }
    context
}

fn ints(all: &[i64]) -> Vec<Value> {
    all.iter().map(|n| Value::Int(*n)).collect()
}

fn error<T>(r: Result<T, VmError>) -> String {
    match r {
        Ok(_) => panic!("expected an error"),
        Err(error) => error.text().to_string(),
    }
}

fn is_int(r: Result<Value, VmError>, expected: i64) -> bool {
    matches!(r, Ok(Value::Int(n)) if n == expected)
}

#[test]
fn arguments_are_checked_by_type() {
    let args = [Value::Int(1), Value::Bool(true), Value::Float(FloatValue::Bits(7))];
    let op = None;
    assert_eq!(int_arg(&op, &args, 0, "n").unwrap(), 1);
    assert!(bool_arg(&op, &args, 1, "b").unwrap());
    assert!(matches!(
        float_arg(&op, &args, 2, "f"),
        Ok(FloatArg::Float(FloatValue::Bits(7)))
    ));
    assert!(matches!(float_arg(&op, &args, 0, "f"), Ok(FloatArg::Int(1))));
    assert_eq!(error(arg(&args, 3, "x")), "missing argument 'x'");
    assert_eq!(
        error(int_arg(&op, &args, 1, "n")),
        "argument 'n' must be int, got bool"
    );
    let op = Some("flint::tensor::add".to_string());
    assert_eq!(
        error(string_arg(&op, &args, 0, "s")),
        "argument 's' in flint::tensor::add must be string, got int"
    );
    assert_eq!(
        error(float_arg(&op, &args, 1, "f")),
        "argument 'f' in flint::tensor::add must be float, got bool"
    );
    assert_eq!(value_kind(&Value::Null), "null");
    assert_eq!(value_kind(&Value::Bytes(Vec::new())), "bytes");
    assert_eq!(value_kind(&Value::Array(Vec::new())), "array");
}

#[test]
fn borrowed_arguments_name_the_type_alone() {
    let args = [Value::Int(1), Value::String("s".into()), Value::Bool(false)];
    assert_eq!(borrow_int(&args, 0, "n").unwrap(), 1);
    assert_eq!(borrow_text(&args, 1, "t").unwrap(), "s");
    assert!(!borrow_bool(&args, 2, "b").unwrap());
    assert!(matches!(borrow_float(&args, 0, "f"), Ok(FloatArg::Int(1))));
    assert!(matches!(borrow_int(&args, 1, "n"), Err(VmError::TypeMismatch(t)) if t == "int"));
    assert!(matches!(borrow_text(&args, 0, "t"), Err(VmError::TypeMismatch(t)) if t == "string"));
    assert!(matches!(borrow_bool(&args, 0, "b"), Err(VmError::TypeMismatch(t)) if t == "bool"));
    assert!(matches!(borrow_float(&args, 2, "f"), Err(VmError::TypeMismatch(t)) if t == "float"));
    assert_eq!(error(borrow_int(&args, 9, "n")), "missing argument 'n'");
}

#[test]
fn operations_have_their_parameters() {
    let context = with_sizes(&[&[2, 3]]);
    let params = params_of(TensorOp::Narrow);
    let kinds: Vec<(ArgKind, &str)> = params.iter().map(|p| (p.kind, p.label)).collect();
    assert_eq!(
        kinds,
        [
            (ArgKind::Tensor, "tensor"),
            (ArgKind::Int, "dim"),
            (ArgKind::Int, "start"),
            (ArgKind::Int, "len")
        ]
    );
    let read = plan_op(&context, TensorOp::Narrow, &ints(&[1, 0, 2, 1])).unwrap();
    assert!(matches!(
        read[..],
        [Arg::Tensor(1), Arg::Int(0), Arg::Int(2), Arg::Int(1)]
    ));
    assert_eq!(
        error(plan_op(&context, TensorOp::Add, &ints(&[1, 5]))),
        "unknown tensor handle 5"
    );
    assert_eq!(error(plan_op(&context, TensorOp::Add, &ints(&[1]))), "missing argument 'right'");
    assert_eq!(
        error(plan_op(&context, TensorOp::Narrow, &ints(&[5, 0]))),
        "unknown tensor handle 5"
    );
    assert_eq!(tensor_arg(&context, &ints(&[1]), 0, "tensor").unwrap(), 1);
    assert_eq!(decode_args(&context, &[], &Vec::new()).unwrap().len(), 0);
}

#[test]
fn sizes_count_from_either_end() {
    let context = with_sizes(&[&[2, 3, 4]]);
    assert!(is_int(tensor_size(&context, &ints(&[1, 0])), 2));
    assert!(is_int(tensor_size(&context, &ints(&[1, -1])), 4));
    assert_eq!(error(tensor_size(&context, &ints(&[1, 3]))), "dimension 3 is out of range");
    assert_eq!(error(tensor_size(&context, &ints(&[1, -4]))), "dimension is out of range");
    assert_eq!(shape_text(&vec![2, 3, 4]), "[2, 3, 4]");
    assert_eq!(shape_text(&Vec::new()), "[]");
    assert!(matches!(
        tensor_shape(&context, &ints(&[1])),
        Ok(Value::String(s)) if s == "[2, 3, 4]"
    ));
}

#[test]
fn chunks_cover_a_dimension() {
    assert_eq!(chunk_range(10, 3, 0).unwrap(), (0, 4));
    assert_eq!(chunk_range(10, 3, 1).unwrap(), (4, 4));
    assert_eq!(chunk_range(10, 3, 2).unwrap(), (8, 2));
    assert_eq!(error(chunk_range(10, 3, 3)), "chunk index 3 is out of range");
    let context = with_sizes(&[&[2, 10]]);
    let plan = tensor_chunk(&context, &ints(&[1, 3, -1, 2])).unwrap();
    assert_eq!((plan.tensor, plan.dim, plan.start, plan.len), (1, 1, 8, 2));
    assert_eq!(error(tensor_chunk(&context, &ints(&[1, 0, 0, 0]))), "chunks must be positive");
    assert_eq!(
        error(tensor_chunk(&context, &ints(&[1, 2, 0, -1]))),
        "chunk index must be non-negative"
    );
    assert_eq!(
        error(tensor_chunk(&context, &ints(&[1, 2, 5, 0]))),
        "dimension 5 is out of range"
    );
}

#[test]
fn tails_are_no_longer_than_the_tensor() {
    let context = with_sizes(&[&[2, 10]]);
    let plan = tensor_tail(&context, &ints(&[1, 1, 4])).unwrap();
    assert_eq!((plan.dim, plan.start, plan.len), (1, 6, 4));
    let plan = tensor_tail(&context, &ints(&[1, -2, 4])).unwrap();
    assert_eq!((plan.dim, plan.start, plan.len), (0, 0, 2));
    assert_eq!(
        error(tensor_tail(&context, &ints(&[1, 1, -4]))),
        "tail length must be non-negative"
    );
}

#[test]
fn gates_need_two_halves() {
    let context = with_sizes(&[&[2, 10], &[3], &[], &[5, 4]]);
    let plan = tensor_swiglu(&context, &ints(&[1])).unwrap();
    assert_eq!((plan.tensor, plan.half), (1, 5));
    assert_eq!(
        error(tensor_swiglu(&context, &ints(&[2]))),
        "swiglu input last dimension must be even"
    );
    assert_eq!(
        error(tensor_swiglu(&context, &ints(&[3]))),
        "swiglu input must have at least one dimension"
    );
    assert_eq!(half_of_last(&vec![4, 6], "swiglu").unwrap(), 3);
    let plan = nn_swiglu_linear(&context, &ints(&[1, 4, 0])).unwrap();
    assert_eq!((plan.input, plan.weight, plan.half, plan.bias), (1, 4, 5, None));
    assert_eq!(
        error(nn_swiglu_linear(&context, &ints(&[2, 4, 0]))),
        "swiglu_linear input last dimension must be even"
    );
}

#[test]
fn masks_open_what_may_be_seen() {
    let plan = tensor_causal_padding_mask(&vec![1, 1, 0, 0, 1, 1], 2, 3);
    assert_eq!(plan.size, [2, 1, 3, 3]);
    assert_eq!(
        plan.open,
        [
            true, false, false, true, true, false, true, true, false, false, false, false, false,
            true, false, false, true, true
        ]
    );
    let plan = tensor_padding_mask(&vec![1, 0, 5], 1, 3);
    assert_eq!(plan.size, [1, 1, 1, 3]);
    assert_eq!(plan.open, [true, false, true]);
    assert_eq!(attention_mask_sizes(&vec![2, 3]).unwrap(), (2, 3));
    assert_eq!(error(attention_mask_sizes(&vec![2])), "attention_mask must have rank 2");
    assert_eq!(error(attention_mask_sizes(&vec![-2, 3])), "batch size out of range");
    assert_eq!(error(attention_mask_sizes(&vec![2, -3])), "seq_len out of range");
    let context = with_sizes(&[&[2, 3]]);
    assert_eq!(attention_mask_request(&context, &ints(&[1])).unwrap(), (1, 2, 3));
}

#[test]
fn rotation_tables_grow() {
    let mut context = with_sizes(&[]);
    let key = RopeCacheKey { kind: RopeKind::Cos, head_dim: 4, theta_bits: 5 };
    let other = RopeCacheKey { kind: RopeKind::Sin, ..key };
    let asked = [
        (RopeKind::Cos, 10, 0, Some(128)),
        (RopeKind::Cos, 128, 0, None),
        (RopeKind::Cos, 129, 0, Some(256)),
        (RopeKind::Sin, 1, 1, Some(128)),
        (RopeKind::Cos, 600, 0, Some(600)),
        (RopeKind::Cos, 600, 0, None),
        (RopeKind::Cos, 0, 0, None),
    ];
    for (kind, len, place, built) in asked {
        let request = rope_request(&context, &ints(&[len, 4, 10000]), false).unwrap();
        let mut made = None;
        let plan = rope_table(&mut context, &request, kind, 5, |key, len| {
            made = Some((key, len));
            0
        });
        assert_eq!(plan, RopePlan { place, start: 0, len, head_dim: 4 });
        let key = if kind == RopeKind::Cos { key } else { other };
        assert_eq!(made, built.map(|len| (key, len)));
        assert!(context.rope_cache[place].key == key);
        assert!(context.rope_cache[place].len >= len);
    }
    let columns: Vec<Option<usize>> = (0..5).map(|c| rope_frequency(5, c)).collect();
    assert_eq!(columns, [Some(0), Some(1), Some(0), Some(1), None]);
}

/// A table is a list of its cells; a cell is its position and its frequency.
type Cells = Vec<Option<(usize, usize)>>;

fn cells(key: RopeCacheKey, len: i64) -> Cells {
    build_rope_table(len as usize, key.head_dim, None, |position, frequency| {
        Some((position, frequency))
    })
}

fn rows_of(context: &mut TorchContext<Cells>, args: &[i64]) -> (Vec<i64>, Cells) {
    let request = rope_request(context, &ints(args), args.len() == 4).unwrap();
    let plan = rope_table(context, &request, RopeKind::Sin, 7, cells);
    let width = plan.head_dim as usize;
    let start = plan.start as usize * width;
    let end = start + plan.len as usize * width;
    let data = context.rope_cache[plan.place].table[start..end].to_vec();
    let handle = match rope_rows(context, plan, Kind::Float, data).unwrap() {
        Value::Int(handle) => handle,
        other => panic!("expected a handle, got {other:?}"),
    };
    let tensor = context.tensor(handle).unwrap();
    assert!(tensor.kind == Kind::Float);
    (tensor.size.clone(), tensor.data.clone())
}

#[test]
fn rotation_rows_do_not_depend_on_earlier_requests() {
    let mut fresh: TorchContext<Cells> = TorchContext::new(Device::Cpu, false);
    let mut used: TorchContext<Cells> = TorchContext::new(Device::Cpu, false);
    rows_of(&mut used, &[500, 5, 10000]);
    rows_of(&mut used, &[2, 5, 10000, 900]);
    let (size, part) = rows_of(&mut fresh, &[3, 5, 10000, 130]);
    assert_eq!(size, [1, 1, 3, 5]);
    assert_eq!(rows_of(&mut used, &[3, 5, 10000, 130]), (size, part.clone()));
    let (size, whole) = rows_of(&mut used, &[133, 5, 10000]);
    assert_eq!(size, [1, 1, 133, 5]);
    for row in 0..3 {
        assert_eq!(part[row * 5..row * 5 + 5], whole[(130 + row) * 5..(130 + row) * 5 + 5]);
    }
    let row = [Some((130, 0)), Some((130, 1)), Some((130, 0)), Some((130, 1)), None];
    assert_eq!(part[..5], row);
}

#[test]
fn rotations_are_asked_for_by_range() {
    let context = with_sizes(&[]);
    let request = rope_request(&context, &ints(&[3, 8, 10000]), false).unwrap();
    assert_eq!((request.len, request.head_dim, request.start, request.end), (3, 8, 0, 3));
    let request = rope_request(&context, &ints(&[3, 8, 10000, 7]), true).unwrap();
    assert_eq!((request.start, request.end), (7, 10));
    assert_eq!(
        error(rope_request(&context, &ints(&[-3, 8, 1]), false)),
        "seq_len must be non-negative"
    );
    assert_eq!(
        error(rope_request(&context, &ints(&[3, -8, 1]), false)),
        "head_dim must be non-negative"
    );
    assert_eq!(
        error(rope_request(&context, &ints(&[3, 8, 1, -1]), true)),
        "start must be non-negative"
    );
    assert_eq!(
        error(rope_request(&context, &ints(&[3, 8, 1, i64::MAX]), true)),
        "rope range overflow"
    );
}

#[test]
fn single_rows_are_multiplied_as_vectors() {
    assert!(matches!(
        linear_or_mv(&vec![1, 1, 4], &vec![6, 4]),
        LinearMethod::MatVec { len: 4, out } if out == [1, 1, 6]
    ));
    assert!(matches!(
        linear_or_mv(&vec![1, 4], &vec![6, 4]),
        LinearMethod::MatVec { len: 4, out } if out == [1, 6]
    ));
    assert!(matches!(linear_or_mv(&vec![2, 4], &vec![6, 4]), LinearMethod::Product));
    assert!(matches!(linear_or_mv(&vec![1, 4], &Vec::new()), LinearMethod::Product));
    assert!(linear_mv_enabled(None));
    assert!(linear_mv_enabled(Some("1")));
    assert!(!linear_mv_enabled(Some("0")));
    assert!(!linear_mv_enabled(Some("")));
    let context = with_sizes(&[&[1, 4], &[6, 4], &[6]]);
    assert!(matches!(
        nn_linear(&context, &ints(&[1, 2, 0]), true).unwrap().method,
        LinearMethod::MatVec { .. }
    ));
    assert!(matches!(
        nn_linear(&context, &ints(&[1, 2, 0]), false).unwrap().method,
        LinearMethod::Product
    ));
    let plan = nn_linear(&context, &ints(&[1, 2, 3]), true).unwrap();
    assert!(matches!(plan.method, LinearMethod::Product));
    assert_eq!(plan.bias, Some(3));
    assert_eq!(error(nn_linear(&context, &ints(&[0, 2, 0]), true)), "linear input handle is 0");
    assert_eq!(error(nn_linear(&context, &ints(&[1, 0, 0]), true)), "linear weight handle is 0");
}

#[test]
fn norms_may_lack_weights() {
    let context = with_sizes(&[&[1, 4], &[4]]);
    let plan = nn_layer_norm(&context, &ints(&[1, 2, 0, 1, 4])).unwrap();
    assert_eq!((plan.input, plan.weight, plan.bias, plan.size), (1, Some(2), None, 4));
    assert_eq!(
        error(nn_layer_norm(&context, &ints(&[1, 9, 0, 1, 4]))),
        "unknown tensor handle 9"
    );
}

#[test]
fn rotations_turn_halves() {
    assert_eq!(rotary_half_of(&vec![1, 2, 5]).unwrap(), 2);
    assert_eq!(error(rotary_half_of(&Vec::new())), "input must have at least one dimension");
    let context = with_sizes(&[&[1, 8, 2, 4], &[1, 2, 2, 4], &[4], &[4], &[3]]);
    let plan = nn_apply_rope(&context, &ints(&[1, 3, 4])).unwrap();
    assert_eq!((plan.input, plan.cos, plan.sin, plan.half), (1, 3, 4, 2));
    let plan = nn_apply_rope_pair(&context, &ints(&[1, 2, 3, 4])).unwrap();
    assert_eq!((plan.query_heads, plan.key_heads, plan.half), (8, 2, 2));
    assert_eq!(
        error(nn_apply_rope_pair(&context, &ints(&[5, 2, 3, 4]))),
        "query must have at least 2 dimensions"
    );
    assert_eq!(
        error(nn_apply_rope_pair(&context, &ints(&[1, 5, 3, 4]))),
        "key must have at least 2 dimensions"
    );
}

#[test]
fn depthwise_convolutions_have_a_way_round() {
    let context = with_sizes(&[&[1, 6, 9], &[6, 1, 3]]);
    let plan = nn_conv1d(&context, &ints(&[1, 2, 0, 1, 2, 1, 6])).unwrap();
    assert_eq!((plan.kind, plan.bias), (Kind::BFloat16, None));
    assert_eq!(conv1d_fallback(&plan, &vec![1, 6, 9], &vec![6, 1, 3], "no").unwrap(), 11);
    assert_eq!(
        error(conv1d_fallback(&plan, &vec![1, 6, 9], &vec![6, 1, 4], "no")),
        "conv1d failed: no"
    );
    let strided = nn_conv1d(&context, &ints(&[1, 2, 0, 2, 2, 1, 6])).unwrap();
    assert_eq!(
        error(conv1d_fallback(&strided, &vec![1, 6, 9], &vec![6, 1, 3], "no")),
        "conv1d failed: no"
    );
}

#[test]
fn convolution_steps_keep_their_taps() {
    let mut context = with_sizes(&[&[1, 6, 2], &[1, 6, 1], &[6, 1, 3], &[1, 6], &[1, 6, 3]]);
    let plan = nn_conv1d_step(&context, &ints(&[1, 2, 3])).unwrap();
    assert_eq!((plan.groups, plan.cached), (6, false));
    keep_conv1d_step_weights(&mut context, 3, Conv1dStepWeights { w0: 0, w1: 0, w2: 0 });
    assert!(nn_conv1d_step(&context, &ints(&[1, 2, 3])).unwrap().cached);
    assert!(cached_conv1d_step_weights(&context, 3, 99).unwrap());
    let shapes = "conv1d_step expects state [B,C,2], input [B,C,1], weight [C,1,3]";
    assert_eq!(error(nn_conv1d_step(&context, &ints(&[4, 2, 3]))), shapes);
    assert_eq!(error(nn_conv1d_step(&context, &ints(&[1, 2, 5]))), shapes);
    assert_eq!(
        error(nn_conv1d_step(&context, &ints(&[5, 2, 3]))),
        "conv1d_step state/input shapes are incompatible"
    );
}

#[test]
fn layers_find_their_weights() {
    let mut context = with_sizes(&[&[1, 3, 8, 8]]);
    let names = ["c.weight", "c.bias", "c.running_mean", "c.running_var", "d.weight"];
    let tensors = names.iter().map(|name| (name.to_string(), tensor(&[1]))).collect();
    weights_store(&mut context, "w", None, tensors).unwrap();
    let conv = |prefix: &str, padding: i64, reflect: bool, bias: bool| {
        vec![
            Value::Int(1),
            Value::String(prefix.into()),
            Value::Int(2),
            Value::Int(padding),
            Value::Bool(reflect),
            Value::Bool(bias),
        ]
    };
    let plan = nn_conv2d(&context, &conv("c", 3, true, true)).unwrap();
    assert_eq!((plan.weight.as_str(), plan.bias.as_deref()), ("c.weight", Some("c.bias")));
    assert_eq!((plan.stride, plan.reflect, plan.padding), (2, Some(3), 0));
    let plan = nn_conv2d(&context, &conv("d", 3, false, false)).unwrap();
    assert_eq!((plan.bias, plan.reflect, plan.padding), (None, None, 3));
    let plan = nn_conv2d(&context, &conv("d", 0, true, false)).unwrap();
    assert_eq!((plan.reflect, plan.padding), (None, 0));
    assert_eq!(error(nn_conv2d(&context, &conv("d", 0, true, true))), "missing weight 'd.bias'");
    assert_eq!(error(nn_conv2d(&context, &conv("e", 0, true, true))), "missing weight 'e.weight'");
    let args = [Value::Int(1), Value::String("c".into())];
    assert_eq!(
        nn_conv_transpose2d(&context, &args).unwrap().weights,
        ["c.weight", "c.bias"]
    );
    assert_eq!(nn_batch_norm2d(&context, &args).unwrap().weights, &names[..4]);
    assert_eq!(layer_error("conv2d", "c", "bad").text(), "conv2d 'c': bad");
}

#[test]
fn patches_are_blocks_of_the_image() {
    let raw: Vec<u8> = (0..IMAGE_BYTES).map(|i| (i % 251) as u8).collect();
    let patches = patch_bytes(&raw);
    assert_eq!(patches.len(), IMAGE_BYTES);
    let mut expected = Vec::new();
    for patch_y in 0..32 {
        for patch_x in 0..32 {
            for y in 0..16 {
                for x in 0..16 {
                    for channel in 0..3 {
                        let (image_x, image_y) = (patch_x * 16 + x, patch_y * 16 + y);
                        expected.push(raw[(image_y * 512 + image_x) * 3 + channel]);
                    }
                }
            }
        }
    }
    assert!(patches == expected);
}

#[test]
fn a_picture_is_cut_in_patches() {
    let raw: Vec<u8> = (0..IMAGE_BYTES).map(|i| (i % 251) as u8).collect();
    let mut file = b"P6 512 512 255\n".to_vec();
    file.extend(&raw);
    assert!(image_lfm2_vl_patches("a.ppm", &file).unwrap() == patch_bytes(&raw));
    let patches = image_lfm2_vl_patches("dot.ppm", &b"P6 1 1 255\n\xff\x80\x00".to_vec()).unwrap();
    assert_eq!(patches.len(), IMAGE_BYTES);
    assert!(patches.chunks(3).all(|pixel| pixel == [255, 128, 0]));
}

#[test]
fn a_file_that_is_no_picture_is_refused() {
    let file = b"P6 1 1 255\n".to_vec();
    for path in ["dot.ppm", "dot.png", "dot.txt", "dot"] {
        let refused = image_lfm2_vl_patches(path, &file).unwrap_err();
        let message = refused.text();
        assert!(message.starts_with(&format!("failed to read image {path}: ")), "{message}");
    }
    assert_eq!(
        picture_patches("a.png", Err("broken".into())).unwrap_err().text(),
        "failed to read image a.png: broken"
    );
    assert_eq!(picture_error("a", "b").text(), "failed to read image a: b");
}

#[test]
fn positions_are_a_square() {
    assert_eq!(exact_root(0), Some(0));
    assert_eq!(exact_root(256), Some(16));
    assert_eq!(exact_root(255), None);
    assert_eq!(exact_root(-4), None);
    let plan = plan_positions(7, &vec![256, 768], 4, 8, 40).unwrap();
    assert_eq!(
        (plan.weight, plan.source, plan.dim, plan.area, plan.filled, plan.max_len),
        (7, 16, 768, 32, 8, 40)
    );
    assert_eq!(
        error(plan_positions(7, &vec![256], 4, 8, 40)),
        "position embedding weight must be [tokens, dim]"
    );
    assert_eq!(
        error(plan_positions(7, &vec![255, 768], 4, 8, 40)),
        "position embedding token count must be square"
    );
    for (height, width, max_len) in [(0, 8, 40), (4, -1, 40), (4, 8, 31)] {
        assert_eq!(
            error(plan_positions(7, &vec![256, 768], height, width, max_len)),
            "invalid position embedding target shape"
        );
    }
    let context = with_sizes(&[&[256, 768]]);
    let plan = vl_siglip2_position_embedding(&context, &ints(&[1, 2, 2, 4])).unwrap();
    assert_eq!((plan.area, plan.filled), (4, 0));
}

#[test]
fn unshuffling_moves_pixels_into_channels() {
    let context = with_sizes(&[&[1, 4, 6, 5], &[1, 3, 6, 5]]);
    let plan = vl_pixel_unshuffle2(&context, &ints(&[1])).unwrap();
    assert_eq!(plan.columns, [1, 4, 3, 10]);
    assert_eq!(plan.rows, [1, 3, 2, 20]);
    assert_eq!(
        error(vl_pixel_unshuffle2(&context, &ints(&[2]))),
        "pixel_unshuffle2 expects [N,H,W,C] with even H/W"
    );
}
