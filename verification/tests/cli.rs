use mcp2cli_rs::cli::{is_sse_url, parse_header_args, require_name, tool_arguments, Cli};
use mcp2cli_rs::error::AppError;
use mcp2cli_rs::output::Payload;

fn words(v: &[&str]) -> Vec<String> {
    v.iter().map(|s| s.to_string()).collect()
}

fn pairs(v: &[(&str, &str)]) -> Vec<(String, String)> {
    v.iter().map(|(a, b)| (a.to_string(), b.to_string())).collect()
}

#[test]
fn tool_name_and_pairs() {
    let (name, params) = Cli::parse_tool_args(&words(&["read_file", "--path", "/tmp/test.txt"]));
    assert_eq!(name, Some("read_file".to_string()));
    assert_eq!(params, pairs(&[("path", "/tmp/test.txt")]));
}

#[test]
fn leading_separators_are_skipped() {
    let (name, params) = Cli::parse_tool_args(&words(&["--", "--", "tool", "--a", "1"]));
    assert_eq!(name, Some("tool".to_string()));
    assert_eq!(params, pairs(&[("a", "1")]));
}

#[test]
fn flag_before_name_and_dangling_flag() {
    let (name, params) =
        Cli::parse_tool_args(&words(&["--x", "1", "tool", "extra", "--y", "--z"]));
    assert_eq!(name, Some("tool".to_string()));
    assert_eq!(params, pairs(&[("x", "1"), ("y", "--z")]));
    let (name, params) = Cli::parse_tool_args(&words(&["--only"]));
    assert_eq!(name, None);
    assert!(params.is_empty());
    let (name, params) = Cli::parse_tool_args(&[]);
    assert_eq!(name, None);
    assert!(params.is_empty());
}

#[test]
fn round_trip_of_rendered_arguments() {
    let ps = pairs(&[("k", "--v"), ("k", "w"), ("-x", "1")]);
    let mut args = vec!["tool".to_string()];
    for (k, v) in &ps {
        args.push(format!("--{}", k));
        args.push(v.clone());
    }
    let (name, params) = Cli::parse_tool_args(&args);
    assert_eq!(name, Some("tool".to_string()));
    assert_eq!(params, ps);
}

#[test]
fn headers_last_value_wins() {
    let hs = parse_header_args(&words(&[
        "X-Token: abc",
        "no-colon",
        " Accept :a:b ",
        "X-Token:def",
    ]));
    assert_eq!(hs, pairs(&[("X-Token", "def"), ("Accept", "a:b")]));
}

#[test]
fn sse_urls() {
    assert!(is_sse_url("http://localhost:8080/sse"));
    assert!(is_sse_url("http://localhost:8080/sse?key=1"));
    assert!(!is_sse_url("http://localhost:8080/mcp"));
}

#[test]
fn arguments_json_or_text() {
    let args = tool_arguments(&pairs(&[("n", "5"), ("s", "hello"), ("o", "{\"a\":1}"), ("n", "[1,2]")]));
    assert_eq!(args.len(), 3);
    assert_eq!(args[0].0, "n");
    assert!(matches!(&args[0].1, Payload::Json(t) if t == "[1,2]"));
    assert_eq!(args[1].0, "s");
    assert!(matches!(&args[1].1, Payload::Text(t) if t == "hello"));
    assert_eq!(args[2].0, "o");
    assert!(matches!(&args[2].1, Payload::Json(t) if t == "{\"a\":1}"));
}

#[test]
fn missing_names() {
    assert_eq!(require_name(Some("t".to_string()), "Tool name").unwrap(), "t");
    match require_name(None, "Operation ID") {
        Err(AppError::Cli(m)) => assert_eq!(m, "Operation ID required"),
        _ => panic!("expected a CLI error"),
    }
}
