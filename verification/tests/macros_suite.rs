use sarge::num::IntParseError;
use sarge::tag;
use sarge::{ArgParseError, ArgResult, ArgumentReader, ArgumentType, NoError};

fn svec(xs: &[&str]) -> Vec<String> {
    xs.iter().map(|s| s.to_string()).collect()
}

fn pvec(xs: &[(&str, &str)]) -> Vec<(String, String)> {
    xs.iter().map(|(k, v)| (k.to_string(), v.to_string())).collect()
}

#[derive(Debug, PartialEq)]
struct F64Arg(f64);

impl ArgumentType for F64Arg {
    type Error = NoError;

    fn from_value(val: Option<&str>) -> ArgResult<Self> {
        Some(Ok(F64Arg(val?.parse::<f64>().ok()?)))
    }

    fn consumes() -> bool {
        true
    }

    fn repeatable() -> bool {
        false
    }

    fn default_value() -> Option<Self> {
        None
    }
}

struct Args {
    first_arg: bool,
    second: Option<String>,
    third: Option<Result<Vec<i64>, IntParseError>>,
    fourth: f64,
    fifth: u32,
    sixth: Result<u8, IntParseError>,
}

impl Args {
    fn parse_cli(args: &[&str]) -> Result<(Args, Vec<String>), ArgParseError> {
        let mut parser = ArgumentReader::new();
        let first_arg = parser.add::<bool>(tag::long("first-arg"));
        let second = parser.add::<String>(tag::long("second"));
        let third = parser.add::<Vec<i64>>(tag::both('t', "third"));
        let fourth = parser.add::<F64Arg>(tag::both('f', "fourth"));
        let fifth = parser.add::<u32>(tag::long("fifth"));
        let sixth = parser.add::<u8>(tag::long("sixth"));
        let res = parser.parse_cli(svec(args))?;
        let out = Args {
            first_arg: first_arg
                .get(&res)
                .expect("Tried to unwrap argument that wasn't passed")
                .expect("Tried to unwrap argument that failed to parse"),
            second: second.get_ok(&res),
            third: third.get(&res),
            fourth: fourth
                .get(&res)
                .expect("Tried to unwrap argument that wasn't passed")
                .expect("Tried to unwrap argument that failed to parse")
                .0,
            fifth: fifth
                .get_or(&res, 1)
                .expect("Tried to unwrap argument that failed to parse"),
            sixth: sixth.get_or(&res, 0),
        };
        let rem = res.remainder().clone();
        Ok((out, rem))
    }
}

#[derive(Debug, PartialEq, Eq)]
struct DerivedArgs {
    derived_flag: bool,
}

impl DerivedArgs {
    fn parse_cli(args: &[&str]) -> Result<(DerivedArgs, Vec<String>), ArgParseError> {
        let mut parser = ArgumentReader::new();
        let derived_flag = parser.add::<bool>(tag::long("derived-flag"));
        let res = parser.parse_cli(svec(args))?;
        let out = DerivedArgs {
            derived_flag: derived_flag
                .get(&res)
                .expect("Tried to unwrap argument that wasn't passed")
                .expect("Tried to unwrap argument that failed to parse"),
        };
        let rem = res.remainder().clone();
        Ok((out, rem))
    }
}

#[allow(dead_code)]
struct ShadowError;

struct PollutedArgs {
    polluted_flag: bool,
}

impl PollutedArgs {
    fn parse_cli(args: &[&str]) -> Result<(PollutedArgs, Vec<String>), ArgParseError> {
        let mut parser = ArgumentReader::new();
        let polluted_flag = parser.add::<bool>(tag::long("polluted-flag"));
        let res = parser.parse_cli(svec(args))?;
        let out = PollutedArgs {
            polluted_flag: polluted_flag
                .get(&res)
                .expect("Tried to unwrap argument that wasn't passed")
                .expect("Tried to unwrap argument that failed to parse"),
        };
        let rem = res.remainder().clone();
        Ok((out, rem))
    }
}

#[derive(Debug, PartialEq, Eq)]
struct DefaultArgs {
    socket_addr: String,
    target_addr: Option<String>,
    num: Option<u32>,
    help: Result<bool, NoError>,
    data: Option<Vec<String>>,
}

impl DefaultArgs {
    fn parse_cli(args: &[&str]) -> Result<(DefaultArgs, Vec<String>), ArgParseError> {
        let mut parser = ArgumentReader::new();
        let socket_addr = parser.add::<String>(tag::long("socket-addr"));
        let target_addr = parser.add::<String>(tag::both('t', "target-addr"));
        let num = parser.add::<u32>(tag::both('n', "num"));
        let help = parser.add::<bool>(tag::both('h', "help"));
        let data = parser.add::<Vec<String>>(tag::both('d', "data"));
        let res = parser.parse_cli(svec(args))?;
        let out = DefaultArgs {
            socket_addr: socket_addr
                .get_or(&res, "127.0.0.1:9912".to_string())
                .expect("Tried to unwrap argument that failed to parse"),
            target_addr: target_addr.get_ok_or(&res, "127.0.0.1:9911".to_string()),
            num: num.get_ok_or(&res, 42),
            help: help.get_or(&res, true),
            data: data.get_ok_or(&res, vec![r#"{"name":"hello"}"#.to_string()]),
        };
        let rem = res.remainder().clone();
        Ok((out, rem))
    }
}

struct RepeatableVecArgs {
    headers: Option<Vec<String>>,
}

impl RepeatableVecArgs {
    fn parse_cli(args: &[&str]) -> Result<(RepeatableVecArgs, Vec<String>), ArgParseError> {
        let mut parser = ArgumentReader::new();
        let headers = parser.add::<Vec<String>>(tag::both('H', "headers"));
        let res = parser.parse_cli(svec(args))?;
        let out = RepeatableVecArgs { headers: headers.get_ok(&res) };
        let rem = res.remainder().clone();
        Ok((out, rem))
    }
}

struct RepeatableVecEnvArgs {
    headers: Option<Vec<String>>,
}

impl RepeatableVecEnvArgs {
    fn parse_provided(
        cli: &[&str],
        env: &[(&str, &str)],
    ) -> Result<(RepeatableVecEnvArgs, Vec<String>), ArgParseError> {
        let mut parser = ArgumentReader::new();
        let headers = parser.add::<Vec<String>>(tag::long("headers").env("HEADERS"));
        let res = parser.parse_provided(svec(cli), pvec(env))?;
        let out = RepeatableVecEnvArgs { headers: headers.get_ok(&res) };
        let rem = res.remainder().clone();
        Ok((out, rem))
    }
}

#[derive(Debug, PartialEq, Eq)]
struct OkNoDefaultArgs {
    ok_num: Option<u32>,
}

impl OkNoDefaultArgs {
    fn parse_cli(args: &[&str]) -> Result<(OkNoDefaultArgs, Vec<String>), ArgParseError> {
        let mut parser = ArgumentReader::new();
        let ok_num = parser.add::<u32>(tag::long("ok-num"));
        let res = parser.parse_cli(svec(args))?;
        let out = OkNoDefaultArgs { ok_num: ok_num.get_ok(&res) };
        let rem = res.remainder().clone();
        Ok((out, rem))
    }
}

#[derive(Debug, PartialEq, Eq)]
struct ErrNoDefaultArgs {
    err_num: Option<Result<u32, IntParseError>>,
}

impl ErrNoDefaultArgs {
    fn parse_cli(args: &[&str]) -> Result<(ErrNoDefaultArgs, Vec<String>), ArgParseError> {
        let mut parser = ArgumentReader::new();
        let err_num = parser.add::<u32>(tag::long("err-num"));
        let res = parser.parse_cli(svec(args))?;
        let out = ErrNoDefaultArgs { err_num: err_num.get(&res) };
        let rem = res.remainder().clone();
        Ok((out, rem))
    }
}

#[derive(Debug, PartialEq, Eq)]
struct ErrDefaultArgs {
    err_num: Result<u32, IntParseError>,
}

impl ErrDefaultArgs {
    fn parse_cli(args: &[&str]) -> Result<(ErrDefaultArgs, Vec<String>), ArgParseError> {
        let mut parser = ArgumentReader::new();
        let err_num = parser.add::<u32>(tag::long("err-num"));
        let res = parser.parse_cli(svec(args))?;
        let out = ErrDefaultArgs { err_num: err_num.get_or(&res, 9) };
        let rem = res.remainder().clone();
        Ok((out, rem))
    }
}

#[derive(Debug, PartialEq, Eq)]
struct PlainNoDefaultArgs {
    num: u32,
}

impl PlainNoDefaultArgs {
    fn parse_cli(args: &[&str]) -> Result<(PlainNoDefaultArgs, Vec<String>), ArgParseError> {
        let mut parser = ArgumentReader::new();
        let num = parser.add::<u32>(tag::long("num"));
        let res = parser.parse_cli(svec(args))?;
        let out = PlainNoDefaultArgs {
            num: num
                .get(&res)
                .expect("Tried to unwrap argument that wasn't passed")
                .expect("Tried to unwrap argument that failed to parse"),
        };
        let rem = res.remainder().clone();
        Ok((out, rem))
    }
}

#[derive(Debug, PartialEq, Eq)]
struct PlainDefaultArgs {
    num: u32,
}

impl PlainDefaultArgs {
    fn parse_cli(args: &[&str]) -> Result<(PlainDefaultArgs, Vec<String>), ArgParseError> {
        let mut parser = ArgumentReader::new();
        let num = parser.add::<u32>(tag::long("num"));
        let res = parser.parse_cli(svec(args))?;
        let out = PlainDefaultArgs {
            num: num
                .get_or(&res, 7)
                .expect("Tried to unwrap argument that failed to parse"),
        };
        let rem = res.remainder().clone();
        Ok((out, rem))
    }
}

#[test]
fn macros_test_macros() {
    let (args, _) = Args::parse_cli(&[
        "test",
        "--first-arg",
        "--third",
        "123,456,789",
        "-f",
        "10.11",
        "--sixth",
        "256",
    ])
    .expect("failed to parse arguments");

    assert!(args.first_arg);
    assert_eq!(args.second, None);
    assert_eq!(args.third, Some(Ok(vec![123, 456, 789])));
    assert_eq!(args.fourth, 10.11);
    assert_eq!(args.fifth, 1);
    assert!(args.sixth.is_err());
}

#[test]
fn macros_struct_attributes_are_applied() {
    let (args, remainder) = DerivedArgs::parse_cli(&["bin"]).expect("failed to parse derived args");

    assert_eq!(remainder, vec!["bin"]);
    assert_eq!(args, DerivedArgs { derived_flag: false });
    let rendered = format!("{args:?}");
    assert!(rendered.contains("derived_flag"));
}

#[test]
fn macros_ok_import_does_not_break_macro() {
    let (args, remainder) =
        PollutedArgs::parse_cli(&["polluted"]).expect("sarge should ignore anyhow::Ok import");

    let _ = Ok::<(), ShadowError>(());

    assert_eq!(remainder, vec!["polluted"]);
    assert!(!args.polluted_flag);
}

#[test]
fn macros_defaults_are_applied() {
    let (args, remainder) = DefaultArgs::parse_cli(&["bin"]).expect("failed to parse default args");

    assert_eq!(remainder, vec!["bin"]);
    assert_eq!(args.socket_addr, "127.0.0.1:9912");
    assert_eq!(args.target_addr.as_deref(), Some("127.0.0.1:9911"));
    assert_eq!(args.num, Some(42));
    assert_eq!(args.help, Ok(true));
    assert_eq!(args.data, Some(vec![r#"{"name":"hello"}"#.to_string()]));
}

#[test]
fn macros_repeatable_vec_type_accumulates_in_macro() {
    let (args, remainder) = RepeatableVecArgs::parse_cli(&[
        "bin",
        "-H",
        "Connection: close",
        "-H",
        "Date: Sun 14 Dec 2025 16:59:06 GMT",
        "-H",
        "a,b",
    ])
    .expect("failed to parse repeatable vec args");

    assert_eq!(remainder, vec!["bin"]);
    assert_eq!(
        args.headers,
        Some(vec![
            "Connection: close".to_string(),
            "Date: Sun 14 Dec 2025 16:59:06 GMT".to_string(),
            "a".to_string(),
            "b".to_string(),
        ])
    );
}

#[test]
fn macros_repeatable_vec_type_accumulates_in_macro_with_long_form() {
    let (args, remainder) =
        RepeatableVecArgs::parse_cli(&["bin", "--headers", "a", "--headers", "b,c"])
            .expect("failed to parse repeatable vec args");

    assert_eq!(remainder, vec!["bin"]);
    assert_eq!(
        args.headers,
        Some(vec!["a".to_string(), "b".to_string(), "c".to_string()])
    );
}

#[test]
fn macros_repeatable_vec_type_cli_overrides_env_in_macro() {
    let (args, remainder) = RepeatableVecEnvArgs::parse_provided(
        &["bin", "--headers", "cli1", "--headers", "cli2"],
        &[("HEADERS", "env1,env2")],
    )
    .expect("failed to parse repeatable vec args");

    assert_eq!(remainder, vec!["bin"]);
    assert_eq!(
        args.headers,
        Some(vec!["cli1".to_string(), "cli2".to_string()])
    );
}

#[test]
fn macros_ok_default_is_none_on_parse_error() {
    let (args, _) = DefaultArgs::parse_cli(&["bin", "--num", "not-a-number"])
        .expect("parse_cli should succeed; #ok turns parse failures into None");

    assert_eq!(args.num, None);
}

#[test]
fn macros_ok_default_never_none_when_missing() {
    let (args, _) = DefaultArgs::parse_cli(&["bin"]).expect("failed to parse default args");

    assert!(args.target_addr.is_some());
    assert!(args.num.is_some());
}

#[test]
fn macros_ok_default_does_not_default_on_parse_error() {
    let (args, _) = DefaultArgs::parse_cli(&["bin", "--num", "bad"])
        .expect("parse_cli should succeed; #ok turns parse failures into None");

    assert_eq!(args.num, None);
}

#[test]
fn macros_ok_without_default_missing_is_none() {
    let (args, _) = OkNoDefaultArgs::parse_cli(&["bin"]).expect("failed to parse ok args");
    assert_eq!(args.ok_num, None);
}

#[test]
fn macros_ok_without_default_parse_success_is_some() {
    let (args, _) =
        OkNoDefaultArgs::parse_cli(&["bin", "--ok-num", "123"]).expect("failed to parse ok args");
    assert_eq!(args.ok_num, Some(123));
}

#[test]
fn macros_ok_without_default_parse_failure_is_none() {
    let (args, _) =
        OkNoDefaultArgs::parse_cli(&["bin", "--ok-num", "bad"]).expect("failed to parse ok args");
    assert_eq!(args.ok_num, None);
}

#[test]
fn macros_ok_default_parse_success_overrides_default() {
    let (args, _) =
        DefaultArgs::parse_cli(&["bin", "--num", "7"]).expect("failed to parse default args");
    assert_eq!(args.num, Some(7));
}

#[test]
fn macros_ok_default_string_overrides_default() {
    let (args, _) = DefaultArgs::parse_cli(&["bin", "--target-addr", "x"])
        .expect("failed to parse default args");
    assert_eq!(args.target_addr.as_deref(), Some("x"));
}

#[test]
fn macros_err_without_default_missing_is_none() {
    let (args, _) = ErrNoDefaultArgs::parse_cli(&["bin"]).expect("failed to parse err args");
    assert_eq!(args.err_num, None);
}

#[test]
fn macros_err_without_default_parse_success_is_ok() {
    let (args, _) =
        ErrNoDefaultArgs::parse_cli(&["bin", "--err-num", "123"]).expect("failed to parse err args");
    assert_eq!(args.err_num, Some(Ok(123)));
}

#[test]
fn macros_err_without_default_parse_failure_is_err() {
    let (args, _) =
        ErrNoDefaultArgs::parse_cli(&["bin", "--err-num", "bad"]).expect("failed to parse err args");
    assert!(matches!(args.err_num, Some(Err(_))));
}

#[test]
fn macros_err_default_missing_uses_default() {
    let (args, _) = ErrDefaultArgs::parse_cli(&["bin"]).expect("failed to parse err default args");
    assert_eq!(args.err_num, Ok(9));
}

#[test]
fn macros_err_default_parse_success_overrides_default() {
    let (args, _) =
        ErrDefaultArgs::parse_cli(&["bin", "--err-num", "10"]).expect("failed to parse err args");
    assert_eq!(args.err_num, Ok(10));
}

#[test]
fn macros_err_default_parse_failure_is_err() {
    let (args, _) =
        ErrDefaultArgs::parse_cli(&["bin", "--err-num", "bad"]).expect("failed to parse err args");
    assert!(args.err_num.is_err());
}

#[test]
#[should_panic(expected = "Tried to unwrap argument that wasn't passed")]
fn macros_plain_without_default_missing_panics() {
    let _ = PlainNoDefaultArgs::parse_cli(&["bin"]);
}

#[test]
#[should_panic(expected = "Tried to unwrap argument that failed to parse")]
fn macros_plain_without_default_parse_failure_panics() {
    let _ = PlainNoDefaultArgs::parse_cli(&["bin", "--num", "bad"]);
}

#[test]
fn macros_plain_without_default_parse_success_is_value() {
    let (args, _) =
        PlainNoDefaultArgs::parse_cli(&["bin", "--num", "5"]).expect("failed to parse plain args");
    assert_eq!(args.num, 5);
}

#[test]
fn macros_plain_default_missing_uses_default() {
    let (args, _) = PlainDefaultArgs::parse_cli(&["bin"]).expect("failed to parse plain args");
    assert_eq!(args.num, 7);
}

#[test]
fn macros_plain_default_parse_success_overrides_default() {
    let (args, _) =
        PlainDefaultArgs::parse_cli(&["bin", "--num", "9"]).expect("failed to parse plain args");
    assert_eq!(args.num, 9);
}

#[test]
#[should_panic(expected = "Tried to unwrap argument that failed to parse")]
fn macros_plain_default_parse_failure_panics() {
    let _ = PlainDefaultArgs::parse_cli(&["bin", "--num", "bad"]);
}
