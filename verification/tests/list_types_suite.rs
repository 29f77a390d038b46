use sarge::tag;
use sarge::ArgumentReader;

fn svec(xs: &[&str]) -> Vec<String> {
    xs.iter().map(|s| s.to_string()).collect()
}

#[test]
fn test_list_types_list_type() {
    let mut parser = ArgumentReader::new();
    let list = parser.add::<Vec<String>>(tag::long("list"));

    let args = parser
        .parse_cli(svec(&["test", "--list", "Hello,World,!"]))
        .expect("failed to parse arguments");

    assert_eq!(
        list.get(&args),
        Some(Ok(vec![
            "Hello".to_string(),
            "World".to_string(),
            "!".to_string(),
        ]))
    );
}

#[test]
fn test_list_types_int_list_type() {
    let mut parser = ArgumentReader::new();
    let list = parser.add::<Vec<i64>>(tag::long("list"));

    let args = parser
        .parse_cli(svec(&["test", "--list", "123,456,789"]))
        .expect("failed to parse arguments");

    assert_eq!(list.get(&args), Some(Ok(vec![123i64, 456, 789])));
}
