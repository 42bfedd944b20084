use captcha::filters::{Grid, Noise, Wave};
use captcha_gate::captchas::Captchas;
use captcha_gate::error::Error;
use captcha_gate::mail::MailIn;

fn picture() -> Vec<u8> {
    vec![0x89, b'P', b'N', b'G']
}

#[test]
fn insert_hands_the_picture_back() {
    let store = Captchas::new();
    let served = store.insert("abc123".to_string(), Some(picture())).expect("served");
    assert_eq!(served, picture());
}

#[test]
fn insert_without_a_picture_is_an_internal_error_and_stores_nothing() {
    let mut store = Captchas::new();
    match store.insert("abc123".to_string(), None) {
        Err(Error::InternalServer(detail)) => assert_eq!(detail, "fails to build captcha image"),
        other => panic!("expected an internal error, got {:?}", other),
    }
    assert!(matches!(store.check("abc123".to_string()), Err(Error::Unauthorized)));
}

#[test]
fn check_accepts_an_issued_text_exactly_once() {
    let mut store = Captchas::new();
    store.insert("abc123".to_string(), Some(picture())).unwrap();
    assert!(store.check("abc123".to_string()).is_ok());
    assert!(matches!(store.check("abc123".to_string()), Err(Error::Unauthorized)));
}

#[test]
fn check_turns_an_unknown_text_down() {
    let mut store = Captchas::new();
    assert!(matches!(store.check("abc123".to_string()), Err(Error::Unauthorized)));
    store.insert("abc123".to_string(), Some(picture())).unwrap();
    assert!(matches!(store.check("xyz789".to_string()), Err(Error::Unauthorized)));
    assert!(store.check("abc123".to_string()).is_ok());
}

#[test]
fn insert_folds_the_renderers_text_to_lower_case() {
    let mut store = Captchas::new();
    store.insert("AbC\u{c9}12".to_string(), Some(picture())).unwrap();
    assert!(matches!(store.check("AbC\u{c9}12".to_string()), Err(Error::Unauthorized)));
    assert!(matches!(store.check("ABC\u{c9}12".to_string()), Err(Error::Unauthorized)));
    assert!(store.check("abc\u{e9}12".to_string()).is_ok());
}

#[test]
fn clones_share_one_store() {
    let store = Captchas::new();
    let mut other = store.clone();
    store.insert("abc123".to_string(), Some(picture())).unwrap();
    assert!(other.check("abc123".to_string()).is_ok());
    let mut first = store.clone();
    assert!(matches!(first.check("abc123".to_string()), Err(Error::Unauthorized)));
}

#[test]
fn two_issues_in_succession_are_answered_independently() {
    let mut store = Captchas::new();
    store.insert("abc123".to_string(), Some(picture())).unwrap();
    store.insert("xyz789".to_string(), Some(picture())).unwrap();
    assert!(store.check("xyz789".to_string()).is_ok());
    assert!(store.check("abc123".to_string()).is_ok());
    assert!(matches!(store.check("xyz789".to_string()), Err(Error::Unauthorized)));
    assert!(matches!(store.check("abc123".to_string()), Err(Error::Unauthorized)));
}

#[test]
fn admit_mail_hands_the_text_to_send_back() {
    let mut store = Captchas::new();
    store.insert("abc123".to_string(), Some(picture())).unwrap();
    let payload = MailIn { captcha_text: "abc123".to_string(), mail_text: "hello".to_string() };
    assert_eq!(store.admit_mail(payload.clone()).expect("admitted"), "hello");
    assert!(matches!(store.admit_mail(payload), Err(Error::Unauthorized)));
}

#[test]
fn admit_mail_refuses_a_long_mail_whatever_the_captcha() {
    let mut store = Captchas::new();
    store.insert("abc123".to_string(), Some(picture())).unwrap();
    let long = "x".repeat(10_001);
    let valid = MailIn { captcha_text: "abc123".to_string(), mail_text: long.clone() };
    let invalid = MailIn { captcha_text: "nope00".to_string(), mail_text: long };
    assert!(matches!(store.admit_mail(invalid), Err(Error::BadRequest(_))));
    match store.admit_mail(valid) {
        Err(Error::BadRequest(why)) => {
            assert_eq!(why, "Mail should not be longer than 10k characters")
        },
        other => panic!("expected a bad request, got {:?}", other),
    }
    let fits = MailIn { captcha_text: "abc123".to_string(), mail_text: "x".repeat(10_000) };
    assert_eq!(store.admit_mail(fits).expect("admitted").len(), 10_000);
}

#[test]
fn a_rendered_captcha_is_issued_and_answered() {
    let mut store = Captchas::new();
    let mut answers: Vec<String> = Vec::new();
    for _ in 0..2 {
        let mut drawn = captcha::Captcha::new();
        drawn.add_chars(6);
        let chars: String = drawn.chars().into_iter().collect();
        let image = drawn
            .apply_filter(Noise::new(0.2))
            .apply_filter(Wave::new(2.0, 8.0).horizontal())
            .apply_filter(Grid::new(9, 9))
            .view(200, 64)
            .as_png();
        assert_eq!(chars.chars().count(), 6);
        let served = store.insert(chars.clone(), image).expect("served");
        assert!(!served.is_empty());
        assert_eq!(&served[..8], &[0x89, b'P', b'N', b'G', 0x0d, 0x0a, 0x1a, 0x0a]);
        answers.push(chars.to_lowercase());
    }
    let collided = answers[0] == answers[1];
    assert!(store.check(answers[0].clone()).is_ok());
    assert_eq!(store.check(answers[1].clone()).is_ok(), !collided);
    assert!(matches!(store.check(answers[0].clone()), Err(Error::Unauthorized)));
}

#[test]
fn issued_and_answered_from_many_threads_each_succeeds_once() {
    let runtime = tokio::runtime::Builder::new_multi_thread().worker_threads(8).build().unwrap();
    let store = Captchas::new();
    let texts: Vec<String> = (0..64).map(|i| format!("cap{:03}", i)).collect();
    let issued: Vec<_> = texts
        .iter()
        .map(|t| {
            let (store, t) = (store.clone(), t.clone());
            runtime.spawn_blocking(move || store.insert(t, Some(vec![1u8])).is_ok())
        })
        .collect();
    for handle in issued {
        assert!(runtime.block_on(handle).unwrap());
    }
    let answered: Vec<_> = texts
        .iter()
        .map(|t| {
            let (mut store, t) = (store.clone(), t.clone());
            runtime.spawn_blocking(move || store.check(t).is_ok())
        })
        .collect();
    for handle in answered {
        assert!(runtime.block_on(handle).unwrap());
    }
    // The store ends empty: no text is accepted a second time.
    let mut store = store;
    for t in texts {
        assert!(matches!(store.check(t), Err(Error::Unauthorized)));
    }
}

#[test]
fn of_two_answers_at_once_exactly_one_is_accepted() {
    let runtime = tokio::runtime::Builder::new_multi_thread().worker_threads(8).build().unwrap();
    for round in 0..50 {
        let store = Captchas::new();
        let text = format!("race{:02}", round);
        store.insert(text.clone(), Some(vec![1u8])).unwrap();
        let attempts: Vec<_> = (0..2)
            .map(|_| {
                let (mut store, text) = (store.clone(), text.clone());
                runtime.spawn_blocking(move || match store.check(text) {
                    Ok(()) => true,
                    Err(Error::Unauthorized) => false,
                    Err(other) => panic!("unexpected {:?}", other),
                })
            })
            .collect();
        let mut accepted = 0;
        for handle in attempts {
            if runtime.block_on(handle).unwrap() {
                accepted += 1;
            }
        }
        assert_eq!(accepted, 1);
    }
}
