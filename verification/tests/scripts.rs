use flint_ai::cli::{
    cli_add_option, cli_argument_parser, cli_get, cli_refer, cli_required, CliTables,
};
use flint_ai::cli_parse::cli_parse_args;
use flint_ai::sd::{
    checked_c_int, return_c_string, sample_method_found, scheduler_found, sd_str_to_sample_method,
    sd_str_to_scheduler, NameStep,
};
use flint_ai::value::{Value, VmError};

fn integer(value: Value) -> i64 {
    match value {
        Value::Int(n) => n,
        other => panic!("expected an integer, got {other:?}"),
    }
}

fn text(value: Value) -> String {
    match value {
        Value::String(s) => s,
        other => panic!("expected a text, got {other:?}"),
    }
}

fn names(all: &[&str]) -> Vec<Value> {
    all.iter().map(|name| Value::String(name.to_string())).collect()
}

struct Script {
    cli: CliTables,
    parser: i64,
    name: i64,
    count: i64,
    mmap: i64,
}

fn script() -> Script {
    let mut cli = CliTables::new();
    let parser = integer(cli_argument_parser(&mut cli).unwrap());
    let name = integer(cli_refer(&mut cli, parser, Value::String(String::new())).unwrap());
    cli_add_option(&mut cli, name, &names(&["-n", "--name"]), "Store", "name").unwrap();
    cli_required(&mut cli, name).unwrap();
    let count = integer(cli_refer(&mut cli, parser, Value::Int(0)).unwrap());
    cli_add_option(&mut cli, count, &names(&["--count"]), "Store", "count").unwrap();
    let mmap = integer(cli_refer(&mut cli, parser, Value::Bool(true)).unwrap());
    cli_add_option(&mut cli, mmap, &names(&["--no-mmap"]), "StoreFalse", "no mmap").unwrap();
    Script { cli, parser, name, count, mmap }
}

fn run(script: &mut Script, args: &[&str]) -> Result<String, VmError> {
    let args: Vec<String> = args.iter().map(|arg| arg.to_string()).collect();
    cli_parse_args(&mut script.cli, &args, script.parser)?;
    Ok(text(cli_get(&script.cli, script.name)?))
}

#[test]
fn cli_host_parses_typed_options() {
    let mut script = script();
    let output = run(&mut script, &["--name=demo", "--count", "7", "--no-mmap"]).unwrap();
    assert_eq!(output, "demo");
    assert_eq!(integer(cli_get(&script.cli, script.count).unwrap()), 7);
    assert!(matches!(cli_get(&script.cli, script.mmap), Ok(Value::Bool(false))));
}

#[test]
fn cli_host_rejects_missing_required_options() {
    let mut script = script();
    let error = match run(&mut script, &[]) {
        Ok(_) => panic!("missing required option was accepted"),
        Err(error) => error,
    };
    assert!(error.text().contains("required argument '-n' is missing"));
}

fn asked(step: NameStep) -> String {
    match step {
        NameStep::Ask(name) => name,
        NameStep::Known(number) => panic!("the number {number} was known"),
    }
}

fn native_number(names: &[&str], name: &str) -> i32 {
    names.iter().position(|known| *known == name).unwrap() as i32
}

fn native_name(names: &[&str], number: i32) -> Option<String> {
    names.get(number as usize).map(|name| name.to_string())
}

#[test]
fn diffusion_namespace_is_bound_at_runtime() {
    let methods = ["euler", "euler_a", "heun"];
    let schedulers = ["discrete", "karras", "exponential", "ays", "gits", "sgm_uniform", "simple"];
    let name = asked(sd_str_to_sample_method("euler").unwrap());
    let found = sample_method_found(&name, native_number(&methods, &name)).unwrap();
    let method = checked_c_int(integer(found), "sample_method").unwrap();
    let method = return_c_string(native_name(&methods, method), "sample_method").unwrap();
    let name = asked(sd_str_to_scheduler("simple").unwrap());
    let found = scheduler_found(&name, native_number(&schedulers, &name)).unwrap();
    let scheduler = checked_c_int(integer(found), "scheduler").unwrap();
    let scheduler = return_c_string(native_name(&schedulers, scheduler), "scheduler").unwrap();
    assert_eq!(format!("{}:{}", text(method), text(scheduler)), "euler:simple");
}
