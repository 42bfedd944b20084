use captcha_gate::clock::TTL_MILLIS;
use captcha_gate::error::Error;
use captcha_gate::ledger::Ledger;

const T0: i64 = 1_700_000_000_000;

fn text(s: &str) -> String {
    s.to_string()
}

#[test]
fn new_ledger_is_empty() {
    let ledger = Ledger::new();
    assert!(ledger.is_empty());
    assert_eq!(ledger.len(), 0);
    assert!(ledger.get(&text("abc123")).is_none());
}

#[test]
fn issue_stores_the_text_in_ascii_lower_case() {
    let mut ledger = Ledger::new();
    ledger.issue(text("AbC123"), T0);
    assert_eq!(ledger.len(), 1);
    assert!(ledger.get(&text("AbC123")).is_none());
    let stored = ledger.get(&text("abc123")).expect("stored under the folded text");
    assert_eq!(stored.text(), "abc123");
    assert_eq!(stored.created_at(), T0);
}

#[test]
fn issued_twice_gives_two_entries() {
    let mut ledger = Ledger::new();
    ledger.issue(text("abc123"), T0);
    ledger.issue(text("xyz789"), T0 + 5);
    assert_eq!(ledger.len(), 2);
    assert_eq!(ledger.get(&text("abc123")).unwrap().created_at(), T0);
    assert_eq!(ledger.get(&text("xyz789")).unwrap().created_at(), T0 + 5);
}

#[test]
fn a_colliding_text_overwrites_the_earlier_entry() {
    let mut ledger = Ledger::new();
    ledger.issue(text("abc123"), T0);
    ledger.issue(text("ABC123"), T0 + 7);
    assert_eq!(ledger.len(), 1);
    assert_eq!(ledger.get(&text("abc123")).unwrap().created_at(), T0 + 7);
}

#[test]
fn an_answer_is_accepted_exactly_once() {
    let mut ledger = Ledger::new();
    ledger.issue(text("abc123"), T0);
    assert!(ledger.verify_and_consume(&text("abc123"), T0 + 1_000).is_ok());
    assert!(ledger.is_empty());
    assert!(matches!(
        ledger.verify_and_consume(&text("abc123"), T0 + 2_000),
        Err(Error::Unauthorized)
    ));
    assert!(ledger.is_empty());
}

#[test]
fn an_answer_at_the_end_of_the_window_is_accepted() {
    let mut ledger = Ledger::new();
    ledger.issue(text("abc123"), T0);
    assert!(ledger.verify_and_consume(&text("abc123"), T0 + TTL_MILLIS).is_ok());
    assert!(ledger.is_empty());
}

#[test]
fn an_answer_after_the_window_is_unauthorized() {
    let mut ledger = Ledger::new();
    ledger.issue(text("abc123"), T0);
    assert!(matches!(
        ledger.verify_and_consume(&text("abc123"), T0 + TTL_MILLIS + 1),
        Err(Error::Unauthorized)
    ));
    // The failed answer removed nothing; the entry is dead all the same.
    assert_eq!(ledger.len(), 1);
    assert!(ledger.get(&text("abc123")).unwrap().expired_at(T0 + TTL_MILLIS + 1));
    assert!(matches!(
        ledger.verify_and_consume(&text("abc123"), T0 + 31 * 60 * 1_000),
        Err(Error::Unauthorized)
    ));
    // The next issue sweeps it out.
    ledger.issue(text("xyz789"), T0 + 31 * 60 * 1_000);
    assert_eq!(ledger.len(), 1);
    assert!(ledger.get(&text("abc123")).is_none());
    assert!(ledger.get(&text("xyz789")).is_some());
}

#[test]
fn the_ttl_is_thirty_minutes() {
    assert_eq!(TTL_MILLIS, 30 * 60 * 1_000);
}

#[test]
fn a_wrong_answer_consumes_nothing() {
    let mut ledger = Ledger::new();
    ledger.issue(text("abc123"), T0);
    assert!(matches!(
        ledger.verify_and_consume(&text("abc124"), T0 + 1),
        Err(Error::Unauthorized)
    ));
    assert!(matches!(ledger.verify_and_consume(&text(""), T0 + 1), Err(Error::Unauthorized)));
    assert_eq!(ledger.len(), 1);
    assert!(ledger.verify_and_consume(&text("abc123"), T0 + 2).is_ok());
}

#[test]
fn an_answer_in_another_case_does_not_find_the_captcha() {
    let mut ledger = Ledger::new();
    ledger.issue(text("AbC123"), T0);
    assert!(matches!(
        ledger.verify_and_consume(&text("AbC123"), T0 + 1),
        Err(Error::Unauthorized)
    ));
    assert!(matches!(
        ledger.verify_and_consume(&text("ABC123"), T0 + 1),
        Err(Error::Unauthorized)
    ));
    assert_eq!(ledger.len(), 1);
    assert!(ledger.verify_and_consume(&text("abc123"), T0 + 1).is_ok());
    assert!(ledger.is_empty());
}

#[test]
fn consume_compares_the_stored_text_with_the_folded_answer() {
    let mut ledger = Ledger::new();
    ledger.issue(text("abc123"), T0);
    // Found under the key, but the folded answer is another text.
    assert!(matches!(
        ledger.consume(&text("abc123"), &text("abc124"), T0 + 1),
        Err(Error::Unauthorized)
    ));
    // The folded answer is right, but nothing is stored under the key.
    assert!(matches!(
        ledger.consume(&text("ABC123"), &text("abc123"), T0 + 1),
        Err(Error::Unauthorized)
    ));
    assert_eq!(ledger.len(), 1);
    assert!(ledger.consume(&text("abc123"), &text("abc123"), T0 + 1).is_ok());
    assert!(ledger.is_empty());
}

#[test]
fn sweep_takes_out_the_expired_only() {
    let mut ledger = Ledger::new();
    ledger.issue(text("old111"), T0);
    ledger.issue(text("mid222"), T0 + 10 * 60 * 1_000);
    ledger.issue(text("new333"), T0 + 20 * 60 * 1_000);
    assert_eq!(ledger.len(), 3);
    ledger.sweep(T0 + TTL_MILLIS);
    assert_eq!(ledger.len(), 3);
    ledger.sweep(T0 + TTL_MILLIS + 1);
    assert_eq!(ledger.len(), 2);
    assert!(ledger.get(&text("old111")).is_none());
    ledger.sweep(T0 + 20 * 60 * 1_000 + TTL_MILLIS);
    assert_eq!(ledger.len(), 1);
    assert!(ledger.get(&text("new333")).is_some());
    ledger.sweep(i64::MAX);
    assert!(ledger.is_empty());
}

#[test]
fn issue_sweeps_before_it_stores() {
    let mut ledger = Ledger::new();
    ledger.issue(text("aaa111"), T0);
    ledger.issue(text("bbb222"), T0 + 1);
    ledger.issue(text("ccc333"), T0 + TTL_MILLIS + 1);
    assert_eq!(ledger.len(), 2);
    assert!(ledger.get(&text("aaa111")).is_none());
    assert!(ledger.get(&text("bbb222")).is_some());
    assert!(ledger.get(&text("ccc333")).is_some());
}

#[test]
fn extreme_instants_do_not_overflow() {
    let mut ledger = Ledger::new();
    ledger.issue(text("abc123"), i64::MIN);
    assert!(matches!(
        ledger.verify_and_consume(&text("abc123"), i64::MAX),
        Err(Error::Unauthorized)
    ));
    ledger.issue(text("xyz789"), i64::MAX);
    assert_eq!(ledger.len(), 1);
    // A clock that went backwards has not run the window out.
    assert!(ledger.verify_and_consume(&text("xyz789"), i64::MIN).is_ok());
}

#[test]
fn many_issued_then_each_answered_once_leaves_nothing() {
    let mut ledger = Ledger::new();
    let texts: Vec<String> = (0..50).map(|i| format!("cap{:03}", i)).collect();
    for (i, t) in texts.iter().enumerate() {
        ledger.issue(t.clone(), T0 + i as i64);
    }
    assert_eq!(ledger.len(), 50);
    // Answer them in another order than they were issued in.
    for (i, t) in texts.iter().rev().enumerate() {
        assert!(ledger.verify_and_consume(t, T0 + 100 + i as i64).is_ok());
    }
    assert!(ledger.is_empty());
    for t in texts.iter() {
        assert!(matches!(ledger.verify_and_consume(t, T0 + 200), Err(Error::Unauthorized)));
    }
}
