use flint_ai::cli::{
    cli_add_argument, cli_add_option, cli_argument_parser, cli_get, cli_metavar, cli_refer,
    cli_required, cli_set_description, format_help, names_from_values, reference_value, set_value,
    value_kind, Action, CliReference, CliTables, ValueKind,
};
use flint_ai::cli_parse::cli_parse_args;
use flint_ai::value::{FloatValue, Value, VmError};

fn handle(value: Value) -> i64 {
    match value {
        Value::Int(n) => n,
        other => panic!("expected a handle, got {other:?}"),
    }
}

fn names(all: &[&str]) -> Vec<Value> {
    all.iter().map(|name| Value::String(name.to_string())).collect()
}

fn args(all: &[&str]) -> Vec<String> {
    all.iter().map(|arg| arg.to_string()).collect()
}

fn error(r: Result<Value, VmError>) -> String {
    match r {
        Ok(value) => panic!("expected an error, got {value:?}"),
        Err(error) => error.text().to_string(),
    }
}

fn parser() -> (CliTables, i64) {
    let mut cli = CliTables::new();
    let parser = handle(cli_argument_parser(&mut cli).unwrap());
    (cli, parser)
}

fn option(cli: &mut CliTables, parser: i64, initial: Value, name: &str, action: &str) -> i64 {
    let reference = handle(cli_refer(cli, parser, initial).unwrap());
    assert_eq!(
        handle(cli_add_option(cli, reference, &names(&[name]), action, "").unwrap()),
        reference
    );
    reference
}

#[test]
fn actions_have_four_names() {
    assert_eq!(Action::parse("Store").unwrap(), Action::Store);
    assert_eq!(Action::parse("StoreOption").unwrap(), Action::StoreOption);
    assert_eq!(Action::parse("StoreTrue").unwrap(), Action::StoreTrue);
    assert_eq!(Action::parse("StoreFalse").unwrap(), Action::StoreFalse);
    assert_eq!(
        Action::parse("store").unwrap_err().text(),
        "unknown CLI action 'store'; expected Store, StoreOption, StoreTrue, or StoreFalse"
    );
    assert!(Action::Store.takes_value());
    assert!(Action::StoreOption.takes_value());
    assert!(!Action::StoreTrue.takes_value());
    assert!(!Action::StoreFalse.takes_value());
}

#[test]
fn names_are_texts() {
    assert_eq!(names_from_values(&names(&["-a", "--all"])).unwrap(), ["-a", "--all"]);
    assert_eq!(
        names_from_values(&[]).unwrap_err().text(),
        "option names must not be empty"
    );
    assert_eq!(
        names_from_values(&[Value::Int(1)]).unwrap_err().text(),
        "option names must be strings"
    );
}

#[test]
fn references_hold_four_kinds() {
    assert_eq!(value_kind(&Value::String(String::new())).unwrap(), ValueKind::String);
    assert_eq!(value_kind(&Value::Int(1)).unwrap(), ValueKind::Int);
    assert_eq!(value_kind(&Value::Float(FloatValue::Bits(0))).unwrap(), ValueKind::Float);
    assert_eq!(value_kind(&Value::Bool(true)).unwrap(), ValueKind::Bool);
    assert_eq!(
        value_kind(&Value::Null).unwrap_err().text(),
        "CLI references support string, int, float, and bool values"
    );
}

#[test]
fn a_refused_reference_uses_its_handle_up() {
    let (mut cli, parser) = parser();
    assert_eq!(parser, 1);
    assert_eq!(
        error(cli_refer(&mut cli, parser, Value::Null)),
        "CLI references support string, int, float, and bool values"
    );
    assert_eq!(handle(cli_refer(&mut cli, parser, Value::Int(0)).unwrap()), 3);
    assert_eq!(error(cli_refer(&mut cli, 9, Value::Int(0))), "unknown CLI parser handle 9");
    assert_eq!(handle(cli_refer(&mut cli, parser, Value::Int(0)).unwrap()), 4);
}

fn reference(kind: ValueKind) -> CliReference {
    CliReference {
        parser: 1,
        kind,
        value: Value::Null,
        names: Vec::new(),
        action: None,
        help: String::new(),
        required: false,
        positional: false,
        metavar: None,
        seen: false,
    }
}

#[test]
fn values_are_read_by_kind() {
    let mut entry = reference(ValueKind::Int);
    set_value(&mut entry, "-7").unwrap();
    assert!(matches!(entry.value, Value::Int(-7)));
    assert!(entry.seen);
    let mut entry = reference(ValueKind::Int);
    assert_eq!(
        set_value(&mut entry, "seven").unwrap_err().text(),
        "invalid integer 'seven': invalid digit found in string"
    );
    assert!(!entry.seen);
    assert_eq!(
        set_value(&mut entry, "").unwrap_err().text(),
        "invalid integer '': cannot parse integer from empty string"
    );
    assert_eq!(
        set_value(&mut entry, "9223372036854775808").unwrap_err().text(),
        "invalid integer '9223372036854775808': number too large to fit in target type"
    );
    let mut entry = reference(ValueKind::Bool);
    set_value(&mut entry, "true").unwrap();
    assert!(matches!(entry.value, Value::Bool(true)));
    assert_eq!(
        set_value(&mut entry, "yes").unwrap_err().text(),
        "invalid boolean 'yes': provided string was not `true` or `false`"
    );
    let mut entry = reference(ValueKind::Float);
    set_value(&mut entry, "1.5e3").unwrap();
    match entry.value {
        Value::Float(FloatValue::Literal(ref s)) => assert_eq!(s.parse::<f64>().unwrap(), 1500.0),
        ref other => panic!("unexpected {other:?}"),
    }
    assert_eq!(
        set_value(&mut entry, "1.5x").unwrap_err().text(),
        "invalid float '1.5x': invalid float literal"
    );
    assert_eq!(
        set_value(&mut entry, "").unwrap_err().text(),
        "invalid float '': cannot parse float from empty string"
    );
    let mut entry = reference(ValueKind::String);
    set_value(&mut entry, "--x").unwrap();
    match entry.value {
        Value::String(ref s) => assert_eq!(s, "--x"),
        ref other => panic!("unexpected {other:?}"),
    }
}

#[test]
fn help_lists_the_options() {
    let (mut cli, parser) = parser();
    cli_set_description(&mut cli, parser, "A tool").unwrap();
    let name = handle(cli_refer(&mut cli, parser, Value::String(String::new())).unwrap());
    cli_add_option(&mut cli, name, &names(&["-n", "--name"]), "Store", "the name").unwrap();
    cli_required(&mut cli, name).unwrap();
    cli_metavar(&mut cli, name, "NAME").unwrap();
    let count = handle(cli_refer(&mut cli, parser, Value::Int(0)).unwrap());
    cli_add_argument(&mut cli, count, "count", "StoreOption", "").unwrap();
    option(&mut cli, parser, Value::Bool(true), "--no-mmap", "StoreFalse");
    let expected = "A tool\n\nOptions:\n  -h, --help\tShow this help message\n  -n, --name NAME \
                    (required)\tthe name\n  count VALUE\n  --no-mmap\n";
    assert_eq!(
        format_help(cli.parsers.get(parser).unwrap(), &cli.references),
        expected
    );
    assert_eq!(error(cli_parse_args(&mut cli, &args(&["--help"]), parser)), expected);
}

#[test]
fn help_without_a_description_begins_with_the_options() {
    let (cli, parser) = parser();
    assert_eq!(
        format_help(cli.parsers.get(parser).unwrap(), &cli.references),
        "Options:\n  -h, --help\tShow this help message\n"
    );
}

#[test]
fn options_are_checked() {
    let (mut cli, parser) = parser();
    let text = handle(cli_refer(&mut cli, parser, Value::String(String::new())).unwrap());
    assert_eq!(
        error(cli_add_option(&mut cli, text, &names(&["name"]), "Store", "")),
        "option names must begin with '-' or '--'"
    );
    assert_eq!(
        error(cli_add_option(&mut cli, text, &names(&["-"]), "Store", "")),
        "option names must begin with '-' or '--'"
    );
    assert_eq!(
        error(cli_add_option(&mut cli, text, &names(&["-n"]), "StoreTrue", "")),
        "StoreTrue and StoreFalse require a bool reference"
    );
    assert_eq!(
        error(cli_add_option(&mut cli, 99, &names(&["-n"]), "Store", "")),
        "unknown CLI reference handle 99"
    );
    assert_eq!(
        error(cli_add_argument(&mut cli, text, "n", "StoreTrue", "")),
        "positional arguments require Store or StoreOption"
    );
    assert_eq!(error(cli_required(&mut cli, 99)), "unknown CLI reference handle 99");
    assert_eq!(error(cli_metavar(&mut cli, 99, "X")), "unknown CLI reference handle 99");
    assert_eq!(error(cli_set_description(&mut cli, 99, "")), "unknown CLI parser handle 99");
}

#[test]
fn a_reference_without_an_option_stops_the_parse() {
    let (mut cli, parser) = parser();
    let bare = handle(cli_refer(&mut cli, parser, Value::Int(0)).unwrap());
    assert_eq!(
        error(cli_parse_args(&mut cli, &args(&[]), parser)),
        format!("CLI reference {bare} has no option or argument")
    );
}

#[test]
fn a_name_stands_for_one_option() {
    let (mut cli, parser) = parser();
    option(&mut cli, parser, Value::Int(0), "-n", "Store");
    option(&mut cli, parser, Value::Int(0), "-n", "Store");
    assert_eq!(
        error(cli_parse_args(&mut cli, &args(&[]), parser)),
        "duplicate CLI option '-n'"
    );
}

#[test]
fn arguments_that_do_not_fit_are_refused() {
    let refused = |given: &[&str]| {
        let (mut cli, parser) = parser();
        option(&mut cli, parser, Value::Int(0), "--count", "Store");
        option(&mut cli, parser, Value::Bool(false), "--on", "StoreTrue");
        error(cli_parse_args(&mut cli, &args(given), parser))
    };
    assert_eq!(refused(&["--size"]), "unrecognized option '--size'");
    assert_eq!(refused(&["--count"]), "option '--count' requires a value");
    assert_eq!(refused(&["--on=1"]), "option '--on' does not accept a value");
    assert_eq!(refused(&["word"]), "unexpected positional argument 'word'");
    assert_eq!(refused(&["-x=1"]), "unrecognized option '-x=1'");
    assert_eq!(
        refused(&["--count", "--on"]),
        "invalid integer '--on': invalid digit found in string"
    );
}

#[test]
fn an_inline_value_is_the_value_behind_it() {
    for given in [&["--count=5"][..], &["--count", "5"][..]] {
        let (mut cli, parser) = parser();
        let count = option(&mut cli, parser, Value::Int(0), "--count", "Store");
        cli_parse_args(&mut cli, &args(given), parser).unwrap();
        assert_eq!(handle(cli_get(&cli, count).unwrap()), 5);
    }
}

#[test]
fn the_separator_ends_options() {
    let (mut cli, parser) = parser();
    let word = handle(cli_refer(&mut cli, parser, Value::String(String::new())).unwrap());
    cli_add_argument(&mut cli, word, "word", "Store", "").unwrap();
    let flag = option(&mut cli, parser, Value::Bool(false), "--on", "StoreTrue");
    cli_parse_args(&mut cli, &args(&["--", "--on"]), parser).unwrap();
    assert!(matches!(cli_get(&cli, word), Ok(Value::String(s)) if s == "--on"));
    assert!(matches!(cli_get(&cli, flag), Ok(Value::Bool(false))));
}

#[test]
fn a_parser_parses_once() {
    let (mut cli, parser) = parser();
    let count = option(&mut cli, parser, Value::Int(3), "--count", "Store");
    assert_eq!(
        error(reference_value(&cli, count)),
        "parse_args must be called before reading a reference"
    );
    cli_parse_args(&mut cli, &args(&[]), parser).unwrap();
    assert_eq!(handle(reference_value(&cli, count).unwrap()), 3);
    assert_eq!(
        error(cli_parse_args(&mut cli, &args(&[]), parser)),
        "CLI parser has already parsed its arguments"
    );
    assert_eq!(error(cli_get(&cli, 99)), "unknown CLI reference handle 99");
    assert_eq!(error(cli_parse_args(&mut cli, &args(&[]), 99)), "unknown CLI parser handle 99");
}

#[test]
fn values_before_an_error_are_kept() {
    let (mut cli, parser) = parser();
    let count = option(&mut cli, parser, Value::Int(0), "--count", "Store");
    assert_eq!(
        error(cli_parse_args(&mut cli, &args(&["--count=4", "--size"]), parser)),
        "unrecognized option '--size'"
    );
    cli_parse_args(&mut cli, &args(&[]), parser).unwrap();
    assert_eq!(handle(cli_get(&cli, count).unwrap()), 4);
}
