use flint_ai::context::{HostTensor, Kind, TorchContext};
use flint_ai::device::Device;
use flint_ai::labels::{
    copy_error, format_labels, format_spans, label_request, merge_spans, text_surface,
    tokenizer_format_token_labels, Span,
};
use flint_ai::tokenizer::{
    chat_prompt_text, decode_gathered_request, decode_generated_request, generated_ids,
    push_generated_token, text_result, token_row, token_row_padded, tokenizer_clear_generated_tokens,
    tokenizer_decode_generated, tokenizer_decode_generated_tokens, tokenizer_encode_chat,
    tokenizer_encode_padded, tokenizer_encode_vl_chat, tokenizer_is_eos, tokenizer_load,
    tokenizer_single_token, tokenizer_store, tokenizer_store_with, vl_prompt_text, Encoded,
    TokenizerPlan,
};
use flint_ai::value::{Value, VmError};

const WORDS: &str = r#"{
    "version": "1.0", "truncation": null, "padding": null, "added_tokens": [],
    "normalizer": null, "pre_tokenizer": {"type": "Whitespace"}, "post_processor": null,
    "decoder": null,
    "model": {
        "type": "WordLevel",
        "vocab": {"[UNK]": 0, "Anna": 1, "lives": 2, "in": 3, "Kyoto": 4, "system": 5, "image": 6},
        "unk_token": "[UNK]"
    }
}"#;

fn no_load(_: &str) -> Result<(), String> {
    panic!("the description is plain")
}

fn no_encode(_: &str, _: &str, _: bool) -> Result<Encoded, String> {
    panic!("the tokenizer is plain")
}

fn no_decode(_: &str, _: &Vec<u32>, _: bool) -> Result<String, String> {
    panic!("the tokenizer is plain")
}

fn tensor() -> HostTensor<u8> {
    HostTensor { size: vec![1, 1], kind: Kind::Int64, data: 0 }
}

fn context() -> TorchContext<u8> {
    let mut context = TorchContext::new(Device::Cpu, false);
    context.begin_args(Vec::new());
    context
}

fn with_words() -> TorchContext<u8> {
    let mut context = context();
    assert!(matches!(
        tokenizer_store(&mut context, "words.json", WORDS, no_load),
        Ok(Value::Bool(true))
    ));
    context
}

fn word(s: &str) -> Value {
    Value::String(s.to_string())
}

fn text(r: Result<Value, VmError>) -> String {
    match r {
        Ok(Value::String(s)) => s,
        other => panic!("expected a text, got {other:?}"),
    }
}

fn encoded(ids: &[u32], offsets: &[(usize, usize)]) -> Result<Encoded, String> {
    Ok(Encoded { ids: ids.to_vec(), offsets: offsets.to_vec() })
}

#[test]
fn a_tokenizer_is_read_once() {
    let context = context();
    match tokenizer_load(&context, &[word("words.json")]) {
        Ok(TokenizerPlan::Read(path)) => assert_eq!(path, "words.json"),
        _ => panic!("expected a read"),
    }
    let context = with_words();
    assert!(matches!(
        tokenizer_load(&context, &[word("words.json")]),
        Ok(TokenizerPlan::Loaded(Value::Bool(true)))
    ));
    assert!(matches!(
        tokenizer_load(&context, &[word("other.json")]),
        Ok(TokenizerPlan::Read(_))
    ));
}

#[test]
fn a_broken_tokenizer_is_not_kept() {
    let mut context = with_words();
    let refused = tokenizer_store(&mut context, "bad.json", "{", |text| {
        assert_eq!(text, "{");
        Err("cut short".to_string())
    });
    assert_eq!(refused.unwrap_err().text(), "failed to read bad.json: cut short");
    let wrong = r#"{"version": "0.1", "model": {"type": "WordLevel"}}"#;
    let refused = tokenizer_store(&mut context, "old.json", wrong, no_load).unwrap_err();
    assert!(refused.text().starts_with("failed to read old.json: "));
    assert!(refused.text().contains(" at line 1 column "));
    assert!(matches!(
        tokenizer_load(&context, &[word("words.json")]),
        Ok(TokenizerPlan::Loaded(_))
    ));
    let refused = tokenizer_store_with(&mut context, "x", "", Err("no".to_string()));
    assert_eq!(refused.unwrap_err().text(), "failed to read x: no");
}

#[test]
fn prompts_mark_the_parts_of_a_chat() {
    assert_eq!(
        chat_prompt_text("S", "U"),
        "<|startoftext|><|im_start|>system\nS<|im_end|>\n<|im_start|>user\nU<|im_end|>\n\
         <|im_start|>assistant\n"
    );
    assert_eq!(
        vl_prompt_text("S", "U", 2),
        "<|startoftext|><|im_start|>system\nS<|im_end|>\n<|im_start|>user\n<|image_start|>\
         <image><image><|image_end|>U<|im_end|>\n<|im_start|>assistant\n"
    );
}

#[test]
fn chats_become_one_row_of_tokens() {
    let context = with_words();
    let row = tokenizer_encode_chat(&context, &[word("Anna"), word("Kyoto")], no_encode).unwrap();
    assert_eq!(row.size, [1, row.values.len() as i64]);
    assert!(row.values.contains(&1) && row.values.contains(&4) && row.values.contains(&5));
    let vl = [word("Anna"), word("Kyoto"), Value::Int(3)];
    let row = tokenizer_encode_vl_chat(&context, &vl, no_encode).unwrap();
    assert_eq!(row.values.iter().filter(|id| **id == 6).count(), 3);
    let negative = [word("Anna"), word("Kyoto"), Value::Int(-1)];
    assert_eq!(
        tokenizer_encode_vl_chat(&context, &negative, no_encode).unwrap_err().text(),
        "image_tokens must be non-negative"
    );
    assert_eq!(
        tokenizer_encode_chat(&self::context(), &[word("a"), word("b")], no_encode)
            .unwrap_err()
            .text(),
        "tokenizer has not been loaded"
    );
}

#[test]
fn rows_hold_the_ids() {
    let row = token_row(encoded(&[3, 1], &[(0, 1), (1, 2)])).unwrap();
    assert_eq!((row.values, row.size), (vec![3, 1], vec![1, 2]));
    assert_eq!(
        token_row(Err("odd".to_string())).unwrap_err().text(),
        "tokenizer encode failed: odd"
    );
}

#[test]
fn rows_are_cut_and_filled() {
    let (ids, mask) = token_row_padded(encoded(&[3, 1], &[]), 4, 9).unwrap();
    assert_eq!((ids.values, ids.size), (vec![3, 1, 9, 9], vec![1, 4]));
    assert_eq!((mask.values, mask.size), (vec![1, 1, 0, 0], vec![1, 4]));
    let (ids, mask) = token_row_padded(encoded(&[3, 1, 2], &[]), 2, 9).unwrap();
    assert_eq!((ids.values, mask.values), (vec![3, 1], vec![1, 1]));
    let context = with_words();
    let request = [word("Anna lives"), Value::Int(3), Value::Int(0), Value::Bool(false)];
    let (ids, mask) = tokenizer_encode_padded(&context, &request, no_encode).unwrap();
    assert_eq!((ids.values, mask.values), (vec![1, 2, 0], vec![1, 1, 0]));
    let negative = [word("Anna"), Value::Int(-3), Value::Int(0), Value::Bool(false)];
    assert_eq!(
        tokenizer_encode_padded(&context, &negative, no_encode).unwrap_err().text(),
        "max_len must be non-negative"
    );
}

#[test]
fn generated_tokens_are_decoded() {
    let mut context = with_words();
    assert_eq!(generated_ids(&vec![1, 2, -1, 4294967296, 4], 1), [2, 4]);
    assert_eq!(
        text(tokenizer_decode_generated(&context, &vec![1, 2, 3, 4], 1, no_decode)),
        "lives in Kyoto"
    );
    assert_eq!(text(tokenizer_decode_generated(&context, &vec![1], 5, no_decode)), "");
    let handle = context.insert_tensor(tensor());
    assert_eq!(
        decode_generated_request(&context, &[Value::Int(handle), Value::Int(2)]).unwrap(),
        (handle, 2)
    );
    assert_eq!(
        decode_generated_request(&context, &[Value::Int(handle), Value::Int(-2)])
            .unwrap_err()
            .text(),
        "prompt length must be non-negative"
    );
    assert_eq!(
        text_result(Err("odd".to_string())).unwrap_err().text(),
        "tokenizer decode failed: odd"
    );
}

#[test]
fn gathered_tokens_are_decoded() {
    let mut context = with_words();
    assert!(!decode_gathered_request(&context, &[]).unwrap());
    push_generated_token(&mut context, tensor()).unwrap();
    assert!(decode_gathered_request(&context, &[]).unwrap());
    assert_eq!(
        decode_gathered_request(&context, &[Value::Null]).unwrap_err().text(),
        "decode_generated_tokens takes no arguments"
    );
    assert_eq!(text(tokenizer_decode_generated_tokens(&context, &vec![4, -1], no_decode)), "Kyoto");
    assert_eq!(
        tokenizer_clear_generated_tokens(&mut context, &[Value::Null]).unwrap_err().text(),
        "clear_generated_tokens takes no arguments"
    );
    tokenizer_clear_generated_tokens(&mut context, &[]).unwrap();
    assert!(!decode_gathered_request(&context, &[]).unwrap());
}

#[test]
fn one_token_ends_a_text() {
    let context = context();
    assert!(matches!(tokenizer_is_eos(&context, &[Value::Int(7)]), Ok(Value::Bool(true))));
    assert!(matches!(tokenizer_is_eos(&context, &[Value::Int(8)]), Ok(Value::Bool(false))));
    let row = tokenizer_single_token(&context, &[Value::Int(5)]).unwrap();
    assert_eq!((row.values, row.size), (vec![5], vec![1, 1]));
}

fn spans(all: Vec<Span>) -> Vec<(String, usize, usize)> {
    all.into_iter().map(|s| (s.label, s.start, s.end)).collect()
}

#[test]
fn touching_tokens_of_one_label_are_one_span() {
    let names: Vec<String> = ["O", "PER", "LOC"].iter().map(|s| s.to_string()).collect();
    let offsets = vec![(0, 4), (4, 6), (6, 6), (7, 9), (9, 12), (12, 13)];
    let merged = merge_spans(&offsets, &vec![1, 1, 2, 1, 2, 0], &names).unwrap();
    assert_eq!(
        spans(merged),
        [("PER".to_string(), 0, 6), ("PER".to_string(), 7, 9), ("LOC".to_string(), 9, 12)]
    );
    let short = merge_spans(&offsets, &vec![1], &names).unwrap();
    assert_eq!(spans(short), [("PER".to_string(), 0, 4)]);
    assert_eq!(
        merge_spans(&offsets, &vec![-1], &names).unwrap_err().text(),
        "label id must be non-negative"
    );
    assert_eq!(
        merge_spans(&offsets, &vec![3], &names).unwrap_err().text(),
        "label id 3 is out of range"
    );
}

#[test]
fn surfaces_are_cut_by_bytes() {
    assert_eq!(text_surface("Anna", 0, 2), "An");
    assert_eq!(text_surface("\u{4eac}\u{90fd}", 3, 6), "\u{90fd}");
    assert_eq!(text_surface("\u{4eac}\u{90fd}", 1, 6), "");
    assert_eq!(text_surface("Anna", 2, 9), "");
    assert_eq!(text_surface("Anna", 3, 2), "");
}

#[test]
fn reports_have_a_line_for_each_span() {
    assert_eq!(format_spans("Anna", &Vec::new()), "O\n");
    let span = Span { label: "PER".to_string(), start: 0, end: 4 };
    assert_eq!(format_spans("Anna", &vec![span]), "PER\t0\t4\tAnna\n");
    let report = format_labels(
        "Anna in Kyoto",
        encoded(&[1, 3, 4], &[(0, 4), (5, 7), (8, 13)]),
        &vec![1, 0, 2],
        "O, PER ,LOC",
    );
    assert_eq!(text(report), "PER\t0\t4\tAnna\nLOC\t8\t13\tKyoto\n");
}

#[test]
fn labels_are_reported_on_a_text() {
    let mut context = with_words();
    let handle = context.insert_tensor(tensor());
    let args = [
        word("Anna lives in Kyoto"),
        Value::Int(handle),
        word("O,PER,LOC"),
        Value::Bool(false),
    ];
    let request = label_request(&context, &args).unwrap();
    assert_eq!(request.labels, handle);
    assert_eq!(
        text(tokenizer_format_token_labels(&context, &request, Ok(vec![1, 0, 0, 2]), no_encode)),
        "PER\t0\t4\tAnna\nLOC\t14\t19\tKyoto\n"
    );
    assert_eq!(
        tokenizer_format_token_labels(&context, &request, Err("gone".to_string()), no_encode)
            .unwrap_err()
            .text(),
        "failed to copy labels: gone"
    );
    assert_eq!(copy_error("labels", "gone").text(), "failed to copy labels: gone");
    assert_eq!(
        label_request(&context, &[word("x"), Value::Int(99)]).err().unwrap().text(),
        "unknown tensor handle 99"
    );
}
