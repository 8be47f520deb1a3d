//! The command lines that the handlers hand to the command runner, and the
//! response bodies built from what the runner gives back.
use vstd::prelude::*;
use vstd::string::*;
use vstd::utf8::decode_utf8;
use vstd::utf8::valid_utf8;
use crate::auth::utf8_text;
use crate::text::same_text;
use crate::text::split_words;
use crate::text::texts;
use crate::text::words;

verus! {

#[verifier::external_type_specification]
#[verifier::external_body]
pub struct ExJsonError(serde_json::Error);

pub open spec fn hex_digit(d: nat) -> char {
    if d < 10 {
        digit(d)
    } else if d == 10 { 'a' } else if d == 11 { 'b' } else if d == 12 { 'c' }
    else if d == 13 { 'd' } else if d == 14 { 'e' } else { 'f' }
}

/// How one character stands inside a JSON string: quote and backslash are
/// escaped, control characters take their short escape or `\u00XX`, and
/// every other character stands for itself.
pub open spec fn json_char(c: char) -> Seq<char> {
    let u = c as u32;
    if c == '"' {
        seq!['\\', '"']
    } else if c == '\\' {
        seq!['\\', '\\']
    } else if u == 0x08 {
        seq!['\\', 'b']
    } else if u == 0x0C {
        seq!['\\', 'f']
    } else if c == '\n' {
        seq!['\\', 'n']
    } else if c == '\r' {
        seq!['\\', 'r']
    } else if c == '\t' {
        seq!['\\', 't']
    } else if u < 0x20 {
        seq!['\\', 'u', '0', '0', hex_digit((u / 16) as nat), hex_digit((u % 16) as nat)]
    } else {
        seq![c]
    }
}

pub open spec fn json_chars(s: Seq<char>) -> Seq<char>
    decreases s.len(),
{
    if s.len() == 0 {
        seq![]
    } else {
        json_chars(s.drop_last()) + json_char(s.last())
    }
}

/// A text as a JSON string literal.
pub open spec fn json_string(s: Seq<char>) -> Seq<char> {
    seq!['"'] + json_chars(s) + seq!['"']
}

pub open spec fn json_items(items: Seq<Seq<char>>) -> Seq<char>
    decreases items.len(),
{
    if items.len() == 0 {
        seq![]
    } else if items.len() == 1 {
        json_string(items[0])
    } else {
        json_items(items.drop_last()) + seq![','] + json_string(items.last())
    }
}

/// A list of texts as compact JSON: `["a","b"]`.
pub open spec fn json_list(items: Seq<Seq<char>>) -> Seq<char> {
    seq!['['] + json_items(items) + seq![']']
}

/// A program to run and its argument vector; no shell sees it.
#[derive(Debug)]
pub struct CommandSpec {
    pub program: String,
    pub args: Vec<String>,
}

impl CommandSpec {
    /// Whether this runs `program` with exactly the arguments `args`.
    pub open spec fn runs(self, program: Seq<char>, args: Seq<Seq<char>>) -> bool {
        self.program@ == program && texts(self.args@) == args
    }
}

/// Why a handler could not build its response.
#[derive(PartialEq, Eq, Structural, Clone, Copy, Debug)]
pub enum HandlerError {
    /// The program's output is not UTF-8 text.
    OutputNotText,
    /// A list could not be written as JSON.
    Encoding,
}

/// Whether a firewall rule is added or removed.
#[derive(PartialEq, Eq, Structural, Clone, Copy, Debug)]
pub enum RuleAction {
    Add,
    Remove,
}

pub open spec fn digit(d: nat) -> char {
    if d == 0 { '0' } else if d == 1 { '1' } else if d == 2 { '2' } else if d == 3 { '3' }
    else if d == 4 { '4' } else if d == 5 { '5' } else if d == 6 { '6' } else if d == 7 { '7' }
    else if d == 8 { '8' } else { '9' }
}

/// The decimal digits of `n`, most significant first, without leading zeros.
pub open spec fn decimal(n: nat) -> Seq<char>
    decreases n,
{
    if n < 10 {
        seq![digit(n)]
    } else {
        decimal(n / 10).push(digit(n % 10))
    }
}

/// The port argument of a rule: ICMP rules name a message type, the others a
/// port number.
pub open spec fn port_argument(protocol: Seq<char>, port: u16, icmp_type: Seq<char>) -> Seq<char> {
    if protocol == "icmp"@ {
        icmp_type
    } else {
        decimal(port as nat)
    }
}

pub open spec fn action_word(a: RuleAction) -> Seq<char> {
    match a {
        RuleAction::Add => "add"@,
        RuleAction::Remove => "remove"@,
    }
}

/// Relies on `u16::to_string`, which writes the number in decimal.
#[verifier::external_body]
fn decimal_text(n: u16) -> (r: String)
    ensures
        r@ == decimal(n as nat),
{
    n.to_string()
}

/// Relies on `serde_json::to_string` on a list of strings: it writes the
/// compact form, escaping as `format_escaped_str` does. It writes into a
/// `Vec`, and only a failing `Serialize` impl or a map with non-string keys
/// makes it fail, so on a list of strings it succeeds.
#[verifier::external_body]
fn json_text_list(items: &Vec<String>) -> (r: Result<String, serde_json::Error>)
    ensures
        r is Ok,
        r matches Ok(t) ==> t@ == json_list(texts(items@)),
{
    serde_json::to_string(items)
}

fn owned(s: &str) -> (r: String)
    ensures
        r@ == s@,
{
    String::from_str(s)
}

/// `lbu ci -d`: commits the configuration to persistent storage.
pub fn commit_command() -> (r: CommandSpec)
    ensures
        r.runs("lbu"@, seq!["ci"@, "-d"@]),
{
    let r = CommandSpec { program: owned("lbu"), args: vec![owned("ci"), owned("-d")] };
    assert(texts(r.args@) =~= seq!["ci"@, "-d"@]);
    r
}

/// The port argument of a firewall rule.
pub fn rule_port(protocol: &str, port: u16, icmp_type: &str) -> (r: String)
    ensures
        r@ == port_argument(protocol@, port, icmp_type@),
{
    if same_text(protocol, "icmp") {
        owned(icmp_type)
    } else {
        decimal_text(port)
    }
}

/// `limes rule <zone> <chain> add|remove <protocol> <port>`: adds or removes
/// a firewall rule.
pub fn rule_command(
    zone: &str,
    chain: &str,
    action: RuleAction,
    protocol: &str,
    port: u16,
    icmp_type: &str,
) -> (r: CommandSpec)
    ensures
        r.runs(
            "limes"@,
            seq![
                "rule"@,
                zone@,
                chain@,
                action_word(action),
                protocol@,
                port_argument(protocol@, port, icmp_type@),
            ],
        ),
{
    let word = match action {
        RuleAction::Add => owned("add"),
        RuleAction::Remove => owned("remove"),
    };
    let r = CommandSpec {
        program: owned("limes"),
        args: vec![
            owned("rule"),
            owned(zone),
            owned(chain),
            word,
            owned(protocol),
            rule_port(protocol, port, icmp_type),
        ],
    };
    assert(texts(r.args@) =~= seq![
        "rule"@,
        zone@,
        chain@,
        action_word(action),
        protocol@,
        port_argument(protocol@, port, icmp_type@),
    ]);
    r
}

/// `limes includes <zone> <chain> replace <json list>`: replaces the include
/// list of a chain.
pub fn includes_command(zone: &str, chain: &str, includes: &Vec<String>) -> (r: Result<
    CommandSpec,
    HandlerError,
>)
    ensures
        r matches Ok(c) && c.runs(
            "limes"@,
            seq!["includes"@, zone@, chain@, "replace"@, json_list(texts(includes@))],
        ),
{
    match json_text_list(includes) {
        Ok(list) => {
            let r = CommandSpec {
                program: owned("limes"),
                args: vec![owned("includes"), owned(zone), owned(chain), owned("replace"), list],
            };
            assert(texts(r.args@) =~= seq![
                "includes"@,
                zone@,
                chain@,
                "replace"@,
                json_list(texts(includes@)),
            ]);
            Ok(r)
        },
        Err(_) => Err(HandlerError::Encoding),
    }
}

/// `rc-service blocky restart`: restarts the DNS resolver after its
/// configuration was replaced.
pub fn dns_restart_command() -> (r: CommandSpec)
    ensures
        r.runs("rc-service"@, seq!["blocky"@, "restart"@]),
{
    let r = CommandSpec { program: owned("rc-service"), args: vec![owned("blocky"), owned("restart")] };
    assert(texts(r.args@) =~= seq!["blocky"@, "restart"@]);
    r
}

/// `ip <object>`: lists addresses (`a`), links (`link`) or routes (`route`).
pub fn ip_command(object: &str) -> (r: CommandSpec)
    ensures
        r.runs("ip"@, seq![object@]),
{
    let r = CommandSpec { program: owned("ip"), args: vec![owned(object)] };
    assert(texts(r.args@) =~= seq![object@]);
    r
}

/// `ping -c 1 <host>`: one echo request.
pub fn ping_command(host: &str) -> (r: CommandSpec)
    ensures
        r.runs("ping"@, seq!["-c"@, "1"@, host@]),
{
    let r = CommandSpec { program: owned("ping"), args: vec![owned("-c"), owned("1"), owned(host)] };
    assert(texts(r.args@) =~= seq!["-c"@, "1"@, host@]);
    r
}

/// `traceroute <host>`.
pub fn traceroute_command(host: &str) -> (r: CommandSpec)
    ensures
        r.runs("traceroute"@, seq![host@]),
{
    let r = CommandSpec { program: owned("traceroute"), args: vec![owned(host)] };
    assert(texts(r.args@) =~= seq![host@]);
    r
}

/// `apk <words of the body>`: the request body, split at white space, is the
/// argument vector of the package manager.
pub fn apk_command(body: &str) -> (r: CommandSpec)
    ensures
        r.runs("apk"@, words(body@)),
{
    CommandSpec { program: owned("apk"), args: split_words(body) }
}

/// `arp-scan -i <interface> -o json`: the long-running device discovery
/// behind the device stream.
pub fn device_scan_command(interface: &str) -> (r: CommandSpec)
    ensures
        r.runs("arp-scan"@, seq!["-i"@, interface@, "-o"@, "json"@]),
{
    let r = CommandSpec {
        program: owned("arp-scan"),
        args: vec![owned("-i"), owned(interface), owned("-o"), owned("json")],
    };
    assert(texts(r.args@) =~= seq!["-i"@, interface@, "-o"@, "json"@]);
    r
}

/// The response body made of a program's standard output, which must be
/// UTF-8 text.
pub fn stdout_body(stdout: Vec<u8>) -> (r: Result<String, HandlerError>)
    ensures
        match r {
            Ok(t) => valid_utf8(stdout@) && t@ == decode_utf8(stdout@),
            Err(e) => !valid_utf8(stdout@) && e == HandlerError::OutputNotText,
        },
{
    match utf8_text(stdout) {
        Some(t) => Ok(t),
        None => Err(HandlerError::OutputNotText),
    }
}

/// The response body listing template names, as a JSON list.
pub fn name_list_body(names: &Vec<String>) -> (r: Result<String, HandlerError>)
    ensures
        r matches Ok(t) && t@ == json_list(texts(names@)),
{
    match json_text_list(names) {
        Ok(t) => Ok(t),
        Err(_) => Err(HandlerError::Encoding),
    }
}

/// The body of a handler that changed something: `{"success": true}`.
pub fn success_body() -> (r: String)
    ensures
        r@ == "{\"success\": true}"@,
{
    owned("{\"success\": true}")
}

} // verus!
