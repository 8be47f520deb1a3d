use gatekeep::command::apk_command;
use gatekeep::command::commit_command;
use gatekeep::command::device_scan_command;
use gatekeep::command::dns_restart_command;
use gatekeep::command::includes_command;
use gatekeep::command::ip_command;
use gatekeep::command::name_list_body;
use gatekeep::command::ping_command;
use gatekeep::command::rule_command;
use gatekeep::command::rule_port;
use gatekeep::command::stdout_body;
use gatekeep::command::success_body;
use gatekeep::command::traceroute_command;
use gatekeep::command::CommandSpec;
use gatekeep::command::HandlerError;
use gatekeep::command::RuleAction;
use gatekeep::text::same_text;
use gatekeep::text::split_on;
use gatekeep::text::split_words;

fn line(c: &CommandSpec) -> Vec<String> {
    let mut v = vec![c.program.clone()];
    v.extend(c.args.iter().cloned());
    v
}

#[test]
fn put_rule_runs_limes_add() {
    let c = rule_command("lan", "input", RuleAction::Add, "tcp", 443, "");
    assert_eq!(line(&c), vec!["limes", "rule", "lan", "input", "add", "tcp", "443"]);
    assert_eq!(success_body(), "{\"success\": true}");
}

#[test]
fn delete_rule_runs_limes_remove() {
    let c = rule_command("wan", "output", RuleAction::Remove, "udp", 53, "");
    assert_eq!(line(&c), vec!["limes", "rule", "wan", "output", "remove", "udp", "53"]);
}

#[test]
fn icmp_rules_take_the_message_type() {
    let c = rule_command("lan", "input", RuleAction::Add, "icmp", 0, "echo-request");
    assert_eq!(line(&c), vec!["limes", "rule", "lan", "input", "add", "icmp", "echo-request"]);
    assert_eq!(rule_port("icmp", 22, "echo-reply"), "echo-reply");
    assert_eq!(rule_port("tcp", 0, "echo-reply"), "0");
    assert_eq!(rule_port("tcp", 65535, ""), "65535");
    assert_eq!(rule_port("ICMP", 7, "x"), "7");
}

#[test]
fn ping_runs_one_echo_request() {
    let c = ping_command("8.8.8.8");
    assert_eq!(line(&c), vec!["ping", "-c", "1", "8.8.8.8"]);
    let out = b"PING 8.8.8.8 (8.8.8.8): 56 data bytes\n".to_vec();
    assert_eq!(stdout_body(out).unwrap(), "PING 8.8.8.8 (8.8.8.8): 56 data bytes\n");
    // an unreachable host still answers with whatever was printed
    assert_eq!(stdout_body(Vec::new()).unwrap(), "");
}

#[test]
fn output_that_is_not_text_fails_the_request() {
    assert_eq!(stdout_body(vec![0x66, 0xff, 0x66]).unwrap_err(), HandlerError::OutputNotText);
    assert_eq!(stdout_body("é✓".as_bytes().to_vec()).unwrap(), "é✓");
}

#[test]
fn diagnostic_commands() {
    assert_eq!(line(&traceroute_command("example.org")), vec!["traceroute", "example.org"]);
    assert_eq!(line(&ip_command("route")), vec!["ip", "route"]);
    assert_eq!(line(&ip_command("a")), vec!["ip", "a"]);
    assert_eq!(line(&commit_command()), vec!["lbu", "ci", "-d"]);
    assert_eq!(line(&dns_restart_command()), vec!["rc-service", "blocky", "restart"]);
    assert_eq!(line(&device_scan_command("eth0")), vec!["arp-scan", "-i", "eth0", "-o", "json"]);
}

#[test]
fn apk_body_is_split_into_arguments() {
    assert_eq!(line(&apk_command("add  curl\tvim\n")), vec!["apk", "add", "curl", "vim"]);
    assert_eq!(line(&apk_command("   ")), vec!["apk"]);
    assert_eq!(line(&apk_command("del\u{3000}nano")), vec!["apk", "del", "nano"]);
}

#[test]
fn includes_are_written_as_json() {
    let names = vec!["web".to_string(), "ssh \"x\"".to_string()];
    let c = includes_command("lan", "input", &names).unwrap();
    assert_eq!(line(&c), vec!["limes", "includes", "lan", "input", "replace", "[\"web\",\"ssh \\\"x\\\"\"]"]);
    assert_eq!(name_list_body(&vec!["a".to_string(), "b".to_string()]).unwrap(), "[\"a\",\"b\"]");
    assert_eq!(name_list_body(&Vec::new()).unwrap(), "[]");
    let odd = vec!["a\tb\\".to_string(), "\u{1}\u{7f}é".to_string()];
    assert_eq!(name_list_body(&odd).unwrap(), "[\"a\\tb\\\\\",\"\\u0001\u{7f}é\"]");
}

#[test]
fn words_split_at_white_space() {
    assert_eq!(split_words(" a  b\u{2003}c "), vec!["a", "b", "c"]);
    assert!(split_words("").is_empty());
    assert!(split_words(" \t\r\n").is_empty());
    assert_eq!(split_words("x"), vec!["x"]);
}

#[test]
fn pieces_between_separators() {
    assert_eq!(split_on("a:b", ':'), vec!["a", "b"]);
    assert_eq!(split_on("", ':'), vec![""]);
    assert_eq!(split_on("::", ':'), vec!["", "", ""]);
    assert!(same_text("abc", "abc"));
    assert!(!same_text("abc", "abd"));
    assert!(!same_text("ab", "abc"));
}
