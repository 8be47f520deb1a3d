use gatekeep::relay::Event;
use gatekeep::relay::Phase;
use gatekeep::relay::Relay;
use gatekeep::relay::Step;

fn emitted(steps: &[Step]) -> Vec<String> {
    steps
        .iter()
        .filter_map(|s| match s {
            Step::Emit(t) => Some(t.clone()),
            _ => None,
        })
        .collect()
}

fn started() -> Relay {
    let mut r = Relay::new();
    assert_eq!(r.phase(), Phase::Idle);
    assert!(r.on_event(Event::Started).is_empty());
    assert_eq!(r.phase(), Phase::Streaming);
    r
}

#[test]
fn lines_are_sent_in_order_as_they_complete() {
    let mut r = started();
    let mut all = Vec::new();
    let s = r.on_event(Event::Output(b"a\nb".to_vec()));
    assert_eq!(emitted(&s), vec!["a"]);
    all.extend(emitted(&s));
    let s = r.on_event(Event::Output(b"c\r\n\nd\n".to_vec()));
    assert_eq!(emitted(&s), vec!["bc", "", "d"]);
    all.extend(emitted(&s));
    let s = r.on_event(Event::OutputEnded);
    assert_eq!(s.len(), 1);
    assert!(matches!(s[0], Step::Close));
    assert_eq!(all, vec!["a", "bc", "", "d"]);
    assert_eq!(r.phase(), Phase::Closed);
}

#[test]
fn unfinished_last_line_is_flushed_at_exit() {
    let mut r = started();
    assert!(r.on_event(Event::Output(b"{\"ip\":\"10.0.0.2\"}".to_vec())).is_empty());
    let s = r.on_event(Event::OutputEnded);
    assert_eq!(s.len(), 2);
    assert_eq!(emitted(&s), vec!["{\"ip\":\"10.0.0.2\"}"]);
    assert!(matches!(s[1], Step::Close));
}

#[test]
fn client_leaving_terminates_the_program() {
    let mut r = started();
    r.on_event(Event::Output(b"partial".to_vec()));
    let s = r.on_event(Event::ClientGone);
    assert_eq!(s.len(), 2);
    assert!(matches!(s[0], Step::Terminate));
    assert!(matches!(s[1], Step::Close));
    assert_eq!(r.phase(), Phase::Closed);
    // nothing more happens once closed
    assert!(r.on_event(Event::Output(b"late\n".to_vec())).is_empty());
    assert!(r.on_event(Event::ClientGone).is_empty());
}

#[test]
fn read_failure_terminates_the_program() {
    let mut r = started();
    let s = r.on_event(Event::Failed);
    assert!(matches!(s[..], [Step::Terminate, Step::Close]));
}

#[test]
fn spawn_failure_closes_without_terminating() {
    let mut r = Relay::new();
    let s = r.on_event(Event::Failed);
    assert!(matches!(s[..], [Step::Close]));
    assert_eq!(r.phase(), Phase::Closed);
    let mut r = Relay::new();
    assert!(r.on_event(Event::Output(b"x\n".to_vec())).is_empty());
    assert_eq!(r.phase(), Phase::Idle);
}

#[test]
fn a_line_that_is_not_text_ends_the_session() {
    let mut r = started();
    let s = r.on_event(Event::Output(vec![b'o', b'k', b'\n', 0xff, b'\n', b'n', b'\n']));
    assert_eq!(emitted(&s), vec!["ok"]);
    assert_eq!(s.len(), 3);
    assert!(matches!(s[1], Step::Terminate));
    assert!(matches!(s[2], Step::Close));
    assert_eq!(r.phase(), Phase::Closed);
}

#[test]
fn chunking_does_not_change_the_lines() {
    let data = b"one\ntwo\r\nthree\n".to_vec();
    let mut whole = started();
    let a = emitted(&whole.on_event(Event::Output(data.clone())));
    let mut bytewise = started();
    let mut b = Vec::new();
    for byte in data {
        b.extend(emitted(&bytewise.on_event(Event::Output(vec![byte]))));
    }
    assert_eq!(a, vec!["one", "two", "three"]);
    assert_eq!(a, b);
}
