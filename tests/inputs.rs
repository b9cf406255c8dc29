use gar::{parse_inputs, Command, RunWorkflowCommand};

#[test]
fn two_pairs() {
    let m = parse_inputs("a=1&b=2");
    assert_eq!(m.len(), 2);
    assert_eq!(m.get("a").map(|s| s.as_str()), Some("1"));
    assert_eq!(m.get("b").map(|s| s.as_str()), Some("2"));
}

#[test]
fn malformed_pair_is_dropped() {
    let m = parse_inputs("a=1&bad&c=3");
    assert_eq!(m.len(), 2);
    assert_eq!(m.get("a").map(|s| s.as_str()), Some("1"));
    assert_eq!(m.get("c").map(|s| s.as_str()), Some("3"));
    assert!(m.get("bad").is_none());
}

#[test]
fn later_key_overwrites() {
    let m = parse_inputs("a=1&a=2");
    assert_eq!(m.len(), 1);
    assert_eq!(m.get("a").map(|s| s.as_str()), Some("2"));
}

#[test]
fn empty_string_gives_empty_map() {
    assert_eq!(parse_inputs("").len(), 0);
}

#[test]
fn value_keeps_later_equals_signs_and_no_decoding() {
    let m = parse_inputs("q=x=y&p=%20&=v&k=");
    assert_eq!(m.get("q").map(|s| s.as_str()), Some("x=y"));
    assert_eq!(m.get("p").map(|s| s.as_str()), Some("%20"));
    assert_eq!(m.get("").map(|s| s.as_str()), Some("v"));
    assert_eq!(m.get("k").map(|s| s.as_str()), Some(""));
    assert_eq!(m.pairs().len(), 4);
}

#[test]
fn run_command_parses_its_inputs() {
    let cmd = Command::new("t".to_string(), "o".to_string(), "r".to_string(), "main".to_string());
    let run = RunWorkflowCommand::new(cmd, "env=prod&&x".to_string());
    assert_eq!(run.inputs().len(), 1);
    assert_eq!(run.inputs().get("env").map(|s| s.as_str()), Some("prod"));
    assert_eq!(run.command().ref_name, "main");
}
