use domain_checker::blacklist::{init_domains, Blacklist, BlacklistStore};
use domain_checker::boundary::{check_message, free_string};
use domain_checker::matcher::check;
use domain_checker::verdict::Verdict;
use std::cell::RefCell;

fn store_with(domains: &[&str]) -> BlacklistStore {
    let mut store = BlacklistStore::new();
    store.install(Blacklist::from_domains(
        domains.iter().map(|d| d.to_string()).collect(),
    ));
    store
}

fn run(message: &[u8], store: &BlacklistStore) -> (String, Vec<String>) {
    let seen: RefCell<Vec<String>> = RefCell::new(Vec::new());
    let buffer = check_message(message, store, |payload: &str| {
        seen.borrow_mut().push(payload.to_string())
    });
    let text = buffer.as_str().to_string();
    free_string(Some(buffer));
    (text, seen.into_inner())
}

fn parsed(json: &str) -> (bool, Option<String>) {
    let value: serde_json::Value = serde_json::from_str(json).unwrap();
    let object = value.as_object().unwrap();
    assert_eq!(object.len(), 2);
    let phishing = object.get("phishing").unwrap().as_bool().unwrap();
    let domain = object.get("domain").unwrap();
    let domain = if domain.is_null() {
        None
    } else {
        Some(domain.as_str().unwrap().to_string())
    };
    (phishing, domain)
}

#[test]
fn blacklisted_url_is_reported() {
    let store = store_with(&["evil.example"]);
    let (json, seen) = run(b"click http://evil.example/login now", &store);
    assert_eq!(
        json,
        "{\"phishing\":true,\"domain\":\"http://evil.example/login\"}"
    );
    assert_eq!(
        parsed(&json),
        (true, Some("http://evil.example/login".to_string()))
    );
    assert_eq!(seen, vec![json]);
}

#[test]
fn safe_url_is_not_reported() {
    let store = store_with(&["evil.example"]);
    let (json, seen) = run(b"see https://safe.example/ok", &store);
    assert_eq!(json, "{\"phishing\":false,\"domain\":null}");
    assert_eq!(parsed(&json), (false, None));
    assert_eq!(seen, vec![json]);
}

#[test]
fn nothing_matches_before_a_blacklist_is_installed() {
    let store = BlacklistStore::new();
    assert!(store.current().is_none());
    let (json, seen) = run(b"click http://evil.example/login now", &store);
    assert_eq!(json, "{\"phishing\":false,\"domain\":null}");
    assert_eq!(seen, vec![json]);
    assert_eq!(
        check("click http://evil.example/login now", &store),
        Verdict {
            phishing: false,
            domain: None
        }
    );
}

#[test]
fn failed_load_keeps_the_installed_blacklist() {
    let mut store = store_with(&["evil.example"]);
    assert!(!init_domains(&mut store, Some("this is not JSON")));
    assert_eq!(store.current().unwrap().len(), 1);
    assert!(store.current().unwrap().contains("evil.example"));
    let (json, _) = run(b"click http://evil.example/login now", &store);
    assert_eq!(
        json,
        "{\"phishing\":true,\"domain\":\"http://evil.example/login\"}"
    );
    assert!(!init_domains(&mut store, None));
    assert!(store.current().unwrap().contains("evil.example"));
}

#[test]
fn failed_load_into_an_empty_store_leaves_it_empty() {
    let mut store = BlacklistStore::new();
    assert!(!init_domains(&mut store, Some("{\"domains\": []}")));
    assert!(store.current().is_none());
    let (json, _) = run(b"http://evil.example/", &store);
    assert_eq!(json, "{\"phishing\":false,\"domain\":null}");
}

#[test]
fn successful_load_replaces_the_blacklist_as_a_whole() {
    let mut store = store_with(&["evil.example", "bad.test"]);
    assert!(init_domains(&mut store, Some("[\"other.example\"]")));
    let current = store.current().unwrap();
    assert_eq!(current.len(), 1);
    assert!(current.contains("other.example"));
    assert!(!current.contains("evil.example"));
    assert!(!current.contains("bad.test"));
    let (json, _) = run(b"http://evil.example/ http://other.example/x", &store);
    assert_eq!(
        json,
        "{\"phishing\":true,\"domain\":\"http://other.example/x\"}"
    );
}

#[test]
fn text_without_a_scheme_is_clean_whatever_the_blacklist() {
    let texts = [
        "",
        "hello world",
        "evil.example",
        "www.evil.example/login",
        "http:/evil.example",
        "https:evil.example",
        "ftp://evil.example",
        "HTTP://evil.example",
        "h t t p : / / evil.example",
    ];
    let stores = [
        BlacklistStore::new(),
        store_with(&[]),
        store_with(&["evil.example"]),
        store_with(&[""]),
        store_with(&["e", "http", "/", "."]),
    ];
    for store in stores.iter() {
        for text in texts.iter() {
            assert_eq!(check(text, store), Verdict::clean());
            let (json, _) = run(text.as_bytes(), store);
            assert_eq!(json, "{\"phishing\":false,\"domain\":null}");
        }
    }
}

#[test]
fn first_matching_url_wins() {
    let store = store_with(&["evil.example", "bad.test"]);
    let verdict = check(
        "a https://safe.example/1 b http://bad.test/2 c http://evil.example/3",
        &store,
    );
    assert_eq!(
        verdict,
        Verdict {
            phishing: true,
            domain: Some("http://bad.test/2".to_string())
        }
    );
    let verdict = check("http://evil.example/3 http://bad.test/2", &store);
    assert_eq!(verdict, Verdict::phishing("http://evil.example/3".to_string()));
}

#[test]
fn checking_twice_gives_the_same_verdict() {
    let mut store = BlacklistStore::new();
    assert!(init_domains(
        &mut store,
        Some("[\"evil.example\", \"bad.test\"]")
    ));
    for text in [
        "click http://evil.example/login now",
        "see https://safe.example/ok",
        "",
    ] {
        let first = check(text, &store);
        let second = check(text, &store);
        assert_eq!(first, second);
        let (first_json, _) = run(text.as_bytes(), &store);
        let (second_json, _) = run(text.as_bytes(), &store);
        assert_eq!(first_json, second_json);
        assert_eq!(first_json, first.to_json());
    }
}

#[test]
fn releasing_buffers_does_not_crash() {
    free_string(None);
    let store = store_with(&["evil.example"]);
    let buffer = check_message(b"http://evil.example/", &store, |_payload: &str| {});
    free_string(Some(buffer));
    let buffer = check_message(b"", &BlacklistStore::new(), |_payload: &str| {});
    assert_eq!(buffer.into_string(), "{\"phishing\":false,\"domain\":null}");
}

#[test]
fn verdict_encoding_is_stable() {
    let verdict = Verdict {
        phishing: true,
        domain: Some("http://evil.example/path".to_string()),
    };
    let first = verdict.to_json();
    let second = verdict.to_json();
    assert_eq!(first, second);
    assert_eq!(first.as_bytes(), second.as_bytes());
    assert_eq!(
        first,
        "{\"phishing\":true,\"domain\":\"http://evil.example/path\"}"
    );
    let (phishing, domain) = parsed(&first);
    assert_eq!(
        Verdict { phishing, domain },
        verdict
    );
    assert_eq!(Verdict { phishing, domain: parsed(&first).1 }.to_json(), first);
}

#[test]
fn message_that_is_not_utf8_is_clean_and_still_notified() {
    let store = store_with(&["evil.example", ""]);
    let mut message = b"http://evil.example/ ".to_vec();
    message.push(0xff);
    let (json, seen) = run(&message, &store);
    assert_eq!(json, "{\"phishing\":false,\"domain\":null}");
    assert_eq!(seen, vec![json]);
    let (json, seen) = run(&[0xc3, 0x28], &store);
    assert_eq!(json, "{\"phishing\":false,\"domain\":null}");
    assert_eq!(seen.len(), 1);
    let (json, _) = run(&[0xed, 0xa0, 0x80], &store);
    assert_eq!(json, "{\"phishing\":false,\"domain\":null}");
}

#[test]
fn callback_runs_once_before_the_buffer_is_returned() {
    let store = store_with(&["evil.example"]);
    let calls: RefCell<Vec<String>> = RefCell::new(Vec::new());
    let buffer = check_message(b"x http://evil.example/a y", &store, |payload: &str| {
        calls.borrow_mut().push(payload.to_string())
    });
    assert_eq!(calls.borrow().len(), 1);
    assert_eq!(calls.borrow()[0], buffer.as_str());
    assert!(!buffer.as_str().contains('\0'));
    free_string(Some(buffer));
}

#[test]
fn matching_is_case_sensitive_and_unanchored() {
    let store = store_with(&["evil.example"]);
    assert_eq!(check("http://EVIL.example/", &store), Verdict::clean());
    assert_eq!(
        check("http://safe.test/?next=evil.example", &store),
        Verdict::phishing("http://safe.test/?next=evil.example".to_string())
    );
    assert_eq!(
        check("http://notevil.example.org:8080/x", &store),
        Verdict::phishing("http://notevil.example.org:8080/x".to_string())
    );
    assert_eq!(check("evil.example http://ok.test/", &store), Verdict::clean());
    assert_eq!(check("http://evil.exam ple", &store), Verdict::clean());
}

#[test]
fn empty_domain_matches_every_url() {
    let store = store_with(&[""]);
    assert_eq!(
        check("see https://safe.example/ok", &store),
        Verdict::phishing("https://safe.example/ok".to_string())
    );
    assert_eq!(check("no url here", &store), Verdict::clean());
}

#[test]
fn special_characters_in_the_url_are_escaped() {
    let store = store_with(&["evil.example"]);
    let (json, _) = run(b"go http://evil.example/a\"b\\c\x01\x7f end", &store);
    assert_eq!(
        json,
        "{\"phishing\":true,\"domain\":\"http://evil.example/a\\\"b\\\\c\\u0001\x7f\"}"
    );
    assert_eq!(
        parsed(&json),
        (
            true,
            Some("http://evil.example/a\"b\\c\u{1}\u{7f}".to_string())
        )
    );
    let (json, _) = run("http://evil.example/\u{0}/é/\u{1F600}".as_bytes(), &store);
    assert_eq!(
        json,
        "{\"phishing\":true,\"domain\":\"http://evil.example/\\u0000/é/\u{1F600}\"}"
    );
    assert!(!json.contains('\0'));
}
