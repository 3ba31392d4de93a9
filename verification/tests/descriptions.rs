use flint_ai::context::TorchContext;
use flint_ai::device::Device;
use flint_ai::json::{
    count_colons, entries_of, field_of, find_entry, has_names_once, items_of, string_of,
};
use flint_ai::support::{can_decode, can_encode, can_read};
use flint_ai::tokenizer::{
    decode_with, encode_with, load_with, tokenizer_decode_generated, tokenizer_encode_padded,
    tokenizer_store_with, Encoded,
};
use flint_ai::value::Value;

/// A description with these parts in place of the plain ones.
fn description(parts: &[(&str, &str)]) -> String {
    let plain = [
        ("version", r#""1.0""#),
        ("truncation", "null"),
        ("padding", "null"),
        ("added_tokens", "[]"),
        ("normalizer", "null"),
        ("pre_tokenizer", r#"{"type": "Whitespace"}"#),
        ("post_processor", "null"),
        ("decoder", "null"),
        (
            "model",
            r#"{"type": "WordLevel", "vocab": {"[UNK]": 0, "one": 1, "two": 2, "<s>": 3},
                "unk_token": "[UNK]"}"#,
        ),
    ];
    let mut lines = Vec::new();
    for (name, value) in plain {
        let value = parts.iter().find(|(part, _)| *part == name).map_or(value, |(_, value)| value);
        lines.push(format!("\"{name}\": {value}"));
    }
    format!("{{{}}}", lines.join(", "))
}

fn refused(_: &str, _: &str, _: bool) -> Result<Encoded, String> {
    panic!("the tokenizer is plain")
}

fn ids(description: &str, text: &str, special: bool) -> Vec<u32> {
    encode_with(description, text, special, refused).unwrap().ids
}

#[test]
fn tables_are_taken_apart() {
    let table = r#"{"a": {"b": [1, 2]}, "c": "x", "a": null}"#;
    assert_eq!(field_of(table, "a").unwrap(), "null");
    assert_eq!(field_of(table, "c").unwrap(), "\"x\"");
    assert!(field_of(table, "b").is_none());
    assert!(field_of("[1]", "a").is_none());
    assert!(field_of("{", "a").is_none());
    assert!(find_entry(&Vec::new(), "a").is_none());
}

#[test]
fn values_are_told_apart() {
    assert_eq!(items_of(r#"[1, {"a": "b"}, "c"]"#).unwrap(), ["1", r#"{"a":"b"}"#, "\"c\""]);
    assert!(items_of("{}").is_none() && items_of("[").is_none());
    assert_eq!(string_of(r#""a\"\u00e9""#).unwrap(), "a\"\u{e9}");
    assert!(string_of("1").is_none() && string_of("\"").is_none());
    assert!(entries_of("{}").unwrap().is_empty());
    assert!(entries_of("null").is_none() && entries_of("").is_none());
}

#[test]
fn entries_are_named_once() {
    assert_eq!(count_colons(r#"{"a:b": ":", "c\":": {"d": [{"e": 1}]}}"#), 4);
    let once = |json: &str| has_names_once(json, &entries_of(json).unwrap());
    assert!(once("{}") && once(r#"{"a": 1, "b": {"a": "a:b"}}"#));
    assert!(!once(r#"{"a": 1, "a": 1}"#));
    assert!(!once(r#"{"a": {"b": 1, "b": 2}}"#));
    assert!(!once(r#"{"a": [{"b": 1, "b": 2}]}"#));
    let plain = description(&[]);
    assert!(can_read(&plain));
    let twice = plain.replacen('{', r#"{"version": "1.0", "#, 1);
    assert!(!can_read(&twice) && !can_encode(&twice) && !can_decode(&twice));
    assert!(load_with(&twice, |_| Ok(())).is_ok());
    assert_eq!(load_with(&twice, |_| Err("twice".to_string())), Err("twice".to_string()));
}

#[test]
fn plain_descriptions_are_taken() {
    let plain = description(&[]);
    assert!(can_read(&plain) && can_encode(&plain) && can_decode(&plain));
    assert_eq!(ids(&plain, "one two three", true), [1, 2, 0]);
    let text = decode_with(&plain, &vec![1, 2], true, |_, _, _| panic!("plain"));
    assert_eq!(text.unwrap(), "one two");
    assert!(load_with(&plain, |_| panic!("plain")).is_ok());
}

#[test]
fn templates_need_their_tokens() {
    let template = |piece: &str, tokens: &str| {
        format!(
            r#"{{"type": "TemplateProcessing",
                 "single": [{piece}, {{"Sequence": {{"id": "A", "type_id": 0}}}}],
                 "pair": [], "special_tokens": {tokens}}}"#
        )
    };
    let start = r#"{"SpecialToken": {"id": "<s>", "type_id": 0}}"#;
    let second = r#"{"Sequence": {"id": "B", "type_id": 0}}"#;
    let known = r#"{"<s>": {"id": "<s>", "ids": [3], "tokens": ["<s>"]}}"#;
    let good = template(start, known);
    let with = |end: &str| description(&[("post_processor", end)]);
    assert!(can_encode(&with(&good)));
    assert_eq!(ids(&with(&good), "two", true), [3, 2]);
    assert_eq!(ids(&with(&good), "two", false), [2]);
    assert!(!can_encode(&with(&template(start, "{}"))));
    assert!(!can_encode(&with(&template(second, known))));
    let bytes = r#"{"type": "ByteLevel", "add_prefix_space": false, "trim_offsets": true,
                    "use_regex": true}"#;
    let chain = |steps: &str| format!(r#"{{"type": "Sequence", "processors": [{steps}]}}"#);
    let both = with(&chain(&format!("{bytes}, {good}")));
    assert!(can_encode(&both));
    assert_eq!(ids(&both, "two", true), [3, 2]);
    assert!(!can_encode(&with(&chain(&format!("{good}, {good}")))));
    assert!(can_encode(&with(bytes)));
    let framed = with(
        r#"{"type": "BertProcessing", "sep": ["two", 2], "cls": ["<s>", 3]}"#,
    );
    assert!(can_encode(&framed));
    assert_eq!(ids(&framed, "one", true), [3, 1, 2]);
}

#[test]
fn texts_are_split_in_plain_steps() {
    let with = |splitter: &str| description(&[("pre_tokenizer", splitter)]);
    let split = r#"{"type": "Split", "pattern": {"Regex": "-"}, "behavior": "Removed",
                    "invert": false}"#;
    assert!(can_encode(&with(split)));
    assert_eq!(ids(&with(split), "one-two", true), [1, 2]);
    let chain = format!(r#"{{"type": "Sequence", "pretokenizers": [{split}]}}"#);
    assert_eq!(ids(&with(&chain), "two-one", true), [2, 1]);
    let empty = r#"{"type": "Split", "pattern": {"Regex": ""}, "behavior": "Isolated",
                    "invert": false}"#;
    assert!(encode_with(&with(empty), "aé", true, refused).is_ok());
    assert!(!can_encode(&with(r#"{"type": "FixedLength", "length": 0}"#)));
    let fixed = r#"{"type": "Sequence", "pretokenizers": [{"type": "FixedLength", "length": 0}]}"#;
    assert!(!can_encode(&with(fixed)));
    assert!(can_read(&with(fixed)));
}

#[test]
fn what_can_fail_is_left_to_the_caller() {
    let cut = description(&[(
        "truncation",
        r#"{"direction": "Right", "max_length": 4, "strategy": "LongestFirst", "stride": 4}"#,
    )]);
    assert!(can_read(&cut) && !can_encode(&cut) && can_decode(&cut));
    let answer = encode_with(&cut, "one", false, |tokenizer, text, special| {
        assert_eq!((tokenizer, text, special), (cut.as_str(), "one", false));
        Err("beyond".to_string())
    });
    assert_eq!(answer.unwrap_err(), "beyond");
    let bpe = |prefix: &str| {
        description(&[(
            "model",
            &format!(
                r#"{{"type": "BPE", "continuing_subword_prefix": {prefix},
                     "vocab": {{"a": 0, "b": 1, "ab": 2}}, "merges": [["a", "b"]]}}"#
            ),
        )])
    };
    assert!(!can_read(&bpe(r###""##""###)));
    assert!(load_with(&bpe(r###""##""###), |_| Err("beyond".to_string())).is_err());
    for prefix in ["null", r#""""#] {
        assert!(can_encode(&bpe(prefix)));
        assert_eq!(ids(&bpe(prefix), "ab b", true), [2, 1]);
    }
    assert!(!can_read(&description(&[("normalizer", r#"{"type": "Precompiled"}"#)])));
    assert!(!can_read("{"));
    assert!(!can_read("[]"));
}

#[test]
fn normalizers_leave_added_tokens_alone() {
    let with = |normalizer: &str, normalized: bool| {
        description(&[
            ("normalizer", normalizer),
            (
                "added_tokens",
                &format!(
                    r#"[{{"id": 3, "content": "<s>", "single_word": false, "lstrip": false,
                         "rstrip": false, "normalized": {normalized}, "special": true}}]"#
                ),
            ),
        ])
    };
    let lower = r#"{"type": "Lowercase"}"#;
    assert!(can_encode(&with(lower, false)));
    assert_eq!(ids(&with(lower, false), "<s>ONE", true), [3, 1]);
    assert!(!can_read(&with(lower, true)));
    assert!(can_read(&with("null", true)));
    assert_eq!(ids(&with(r#"{"type": "NFC"}"#, false), "two<s>", true), [2, 3]);
}

#[test]
fn decoders_are_plain_steps() {
    let with = |decoder: &str| description(&[("decoder", decoder)]);
    let decode = |decoder: &str, ids: Vec<u32>| {
        decode_with(&with(decoder), &ids, true, |_, _, _| Err("beyond".to_string()))
    };
    assert_eq!(decode(r#"{"type": "Fuse"}"#, vec![1, 2]).unwrap(), "onetwo");
    assert_eq!(decode(r#"{"type": "Fuse"}"#, vec![]).unwrap(), "");
    let strip = |stop: usize| {
        format!(
            r#"{{"type": "Sequence", "decoders": [{{"type": "Fuse"}},
                 {{"type": "Strip", "content": "o", "start": 1, "stop": {stop}}}]}}"#
        )
    };
    assert_eq!(decode(&strip(0), vec![1]).unwrap(), "ne");
    assert_eq!(decode(&strip(1), vec![1]).unwrap_err(), "beyond");
    let suffix = r#"{"type": "BPEDecoder", "suffix": "</w>"}"#;
    assert_eq!(decode(suffix, vec![]).unwrap_err(), "beyond");
}

#[test]
fn a_tokenizer_that_is_not_plain_is_used_beyond() {
    let cut = description(&[
        ("truncation", r#"{"max_length": 1, "strategy": "LongestFirst", "stride": 2}"#),
        ("decoder", r#"{"type": "BPEDecoder", "suffix": "</w>"}"#),
    ]);
    let mut context = TorchContext::<u8>::new(Device::Cpu, false);
    context.begin_args(Vec::new());
    assert!(tokenizer_store_with(&mut context, "cut.json", &cut, Ok(())).is_ok());
    let request = [
        Value::String("one".to_string()),
        Value::Int(2),
        Value::Int(9),
        Value::Bool(true),
    ];
    let (row, mask) = tokenizer_encode_padded(&context, &request, |tokenizer, text, special| {
        assert_eq!((tokenizer, text, special), (cut.as_str(), "one", true));
        Ok(Encoded { ids: vec![5], offsets: vec![(0, 3)] })
    })
    .unwrap();
    assert_eq!((row.values, mask.values), (vec![5, 9], vec![1, 0]));
    let text = tokenizer_decode_generated(&context, &vec![7, 8], 1, |tokenizer, ids, skip| {
        assert_eq!((tokenizer, ids.as_slice(), skip), (cut.as_str(), &[8][..], true));
        Ok("eight".to_string())
    });
    assert!(matches!(text, Ok(Value::String(s)) if s == "eight"));
}

#[test]
fn plain_tokenizers_take_any_text() {
    let normalizers = ["null", r#"{"type": "NFC"}"#, r#"{"type": "NFKD"}"#, r#"{"type": "Lowercase"}"#];
    let splitters = [
        "null",
        r#"{"type": "BertPreTokenizer"}"#,
        r#"{"type": "ByteLevel", "add_prefix_space": true, "trim_offsets": true, "use_regex": true}"#,
        r#"{"type": "Split", "pattern": {"Regex": "\\s*"}, "behavior": "MergedWithNext",
            "invert": true}"#,
    ];
    let ends = [
        "null",
        r#"{"type": "RobertaProcessing", "sep": ["a", 1], "cls": ["b", 2], "trim_offsets": true,
            "add_prefix_space": true}"#,
        r#"{"type": "TemplateProcessing", "single": [{"Sequence": {"id": "A", "type_id": 0}}],
            "pair": [], "special_tokens": {}}"#,
    ];
    let models = [
        r#"{"type": "WordLevel", "vocab": {"[UNK]": 0, "a": 1}, "unk_token": "[UNK]"}"#,
        r###"{"type": "WordPiece", "vocab": {"[UNK]": 0, "a": 1, "##b": 2}, "unk_token": "[UNK]",
              "continuing_subword_prefix": "##", "max_input_chars_per_word": 100}"###,
        r#"{"type": "BPE", "unk_token": "[UNK]", "byte_fallback": true,
            "vocab": {"[UNK]": 0, "a": 1, "b": 2, "ab": 3}, "merges": [["a", "b"]]}"#,
    ];
    let texts = ["", " \u{3000}ab\n", "e\u{301}ﬁİ\u{1112}\u{1161}\u{11ab}🐀"];
    for normalizer in normalizers {
        for splitter in splitters {
            for end in ends {
                for model in models {
                    let plain = description(&[
                        ("normalizer", normalizer),
                        ("pre_tokenizer", splitter),
                        ("post_processor", end),
                        ("model", model),
                    ]);
                    for text in texts {
                        let encoded = encode_with(&plain, text, true, refused).unwrap();
                        assert_eq!(encoded.ids.len(), encoded.offsets.len());
                        assert!(encoded.offsets.iter().all(|(from, to)| from <= to));
                        assert!(encoded.offsets.iter().all(|(_, to)| *to <= text.len()));
                    }
                }
            }
        }
    }
}

#[test]
fn white_space_is_taken_on_one_side() {
    let with = |lstrip: bool, rstrip: bool| {
        let token = |content: &str, lstrip: bool, rstrip: bool| {
            format!(
                r#"{{"id": 9, "content": "{content}", "single_word": false, "lstrip": {lstrip},
                     "rstrip": {rstrip}, "normalized": false, "special": false}}"#
            )
        };
        let tokens = format!("[{}, {}]", token("<s>", false, rstrip), token(" ", lstrip, false));
        description(&[("added_tokens", &tokens)])
    };
    assert!(can_encode(&with(true, false)));
    assert!(can_encode(&with(false, true)));
    assert!(!can_encode(&with(true, true)) && can_read(&with(true, true)));
    assert_eq!(ids(&with(true, false), "<s>  one", true), [3, 4, 4, 1]);
    assert_eq!(ids(&with(false, true), "<s>  one", true), [3, 4, 4, 1]);
}
