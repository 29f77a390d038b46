use sarge::tag;
use sarge::ArgumentReader;

fn svec(xs: &[&str]) -> Vec<String> {
    xs.iter().map(|s| s.to_string()).collect()
}

fn pvec(xs: &[(&str, &str)]) -> Vec<(String, String)> {
    xs.iter().map(|(k, v)| (k.to_string(), v.to_string())).collect()
}

#[test]
fn test_repeatable_repeatable_list_type_accumulates_values() {
    let mut parser = ArgumentReader::new();
    let list = parser.add::<Vec<String>>(tag::short('H'));

    let args = parser
        .parse_cli(svec(&["test", "-H", "xx", "-H", "xxx", "-H", "sadfh,sjffk"]))
        .expect("failed to parse arguments");

    assert_eq!(
        list.get(&args),
        Some(Ok(vec![
            "xx".to_string(),
            "xxx".to_string(),
            "sadfh".to_string(),
            "sjffk".to_string(),
        ]))
    );
}

#[test]
fn test_repeatable_repeatable_list_type_cli_overrides_env() {
    let mut parser = ArgumentReader::new();
    let list = parser.add::<Vec<String>>(tag::long("list").env("LIST"));

    let args = parser
        .parse_provided(
            svec(&["test", "--list", "cli1", "--list", "cli2"]),
            pvec(&[("LIST", "env1,env2")]),
        )
        .expect("failed to parse provided arguments");

    assert_eq!(
        list.get(&args),
        Some(Ok(vec!["cli1".to_string(), "cli2".to_string()]))
    );
}
