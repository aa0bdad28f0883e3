use discord_wikipedia::commands::{handle_command, CommandAction};
use discord_wikipedia::envelope::{
    encode_envelope, envelope_of_raw, raw_of_envelope, CommandInvocation, CommandOption,
    InteractionEnvelope, OptionValue,
};
use discord_wikipedia::gateway::{dispatch, finish_search, finish_summary, handle_request, Step};
use discord_wikipedia::parse::decode;
use discord_wikipedia::response::InteractionResponse;
use discord_wikipedia::wikipedia::{
    ContentUrls, Desktop, Namespace, Page, Titles, WikipediaPageSummary,
};

use ed25519_dalek::{Signer, SigningKey};

fn keypair() -> (SigningKey, Vec<u8>) {
    let seed: [u8; 32] = [7u8; 32];
    let sk = SigningKey::from_bytes(&seed);
    let pk = sk.verifying_key().to_bytes().to_vec();
    (sk, pk)
}

fn sign_hex(sk: &SigningKey, timestamp: &str, body: &[u8]) -> String {
    let mut msg = timestamp.as_bytes().to_vec();
    msg.extend_from_slice(body);
    let sig = sk.sign(&msg);
    let mut out = String::new();
    for b in sig.to_bytes() {
        out.push_str(&format!("{:02x}", b));
    }
    out
}

#[test]
fn signed_request_verifies_and_alterations_fail() {
    let (sk, pk) = keypair();
    let body = br#"{"type":1}"#;
    let ts = "1700000000";
    let sig = sign_hex(&sk, ts, body);
    assert!(discord_wikipedia::sig::verify(&pk, ts, body, &sig));
    assert!(!discord_wikipedia::sig::verify(&pk, "1700000001", body, &sig));
    assert!(!discord_wikipedia::sig::verify(&pk, ts, br#"{"type":2}"#, &sig));
    let mut bad_sig = sig.clone();
    let swapped = if bad_sig.starts_with('0') { "1" } else { "0" };
    bad_sig.replace_range(0..1, swapped);
    assert!(!discord_wikipedia::sig::verify(&pk, ts, body, &bad_sig));
    assert!(!discord_wikipedia::sig::verify(&pk, ts, body, "zz"));
    assert!(!discord_wikipedia::sig::verify(&pk, ts, body, "abcd"));
}

#[test]
fn ping_end_to_end() {
    let (sk, pk) = keypair();
    let body = br#"{"type":1}"#;
    let ts = "1700000000";
    let sig = sign_hex(&sk, ts, body);
    match handle_request(&pk, ts, &sig, body) {
        Step::Respond(rep) => {
            assert_eq!(rep.status, 200);
            assert_eq!(rep.body, "{\"type\":1}");
        }
        _ => panic!("ping must respond immediately"),
    }
}

#[test]
fn invalid_signature_is_401_regardless_of_body() {
    let (_sk, pk) = keypair();
    let bodies: [&[u8]; 3] = [br#"{"type":1}"#, br#"not json"#, br#"{"type":99}"#];
    for body in bodies {
        match handle_request(&pk, "1700000000", "00", body) {
            Step::Respond(rep) => {
                assert_eq!(rep.status, 401);
                assert_eq!(rep.body, "invalid signature");
            }
            _ => panic!("must respond"),
        }
    }
}

#[test]
fn malformed_body_is_400() {
    let (sk, pk) = keypair();
    let body = br#"{"type":"#;
    let ts = "1700000000";
    let sig = sign_hex(&sk, ts, body);
    match handle_request(&pk, ts, &sig, body) {
        Step::Respond(rep) => {
            assert_eq!(rep.status, 400);
            assert_eq!(rep.body, "invalid interaction");
        }
        _ => panic!("must respond"),
    }
}

#[test]
fn unknown_kind_is_400() {
    let e = decode(br#"{"type":11}"#).expect("unknown kind decodes to Other");
    match &e {
        InteractionEnvelope::Other(k) => assert_eq!(*k, 11),
        _ => panic!("expected Other"),
    }
    match dispatch(&e) {
        Step::Respond(rep) => {
            assert_eq!(rep.status, 400);
            assert_eq!(rep.body, "invalid interaction type");
        }
        _ => panic!("must respond"),
    }
}

#[test]
fn unregistered_command_echoes_diagnostics() {
    let (sk, pk) = keypair();
    let body = br#"{"type":2,"data":{"name":"mystery","options":[{"name":"x","type":3,"value":"y"}]}}"#;
    let ts = "1700000000";
    let sig = sign_hex(&sk, ts, body);
    match handle_request(&pk, ts, &sig, body) {
        Step::Respond(rep) => {
            assert_eq!(rep.status, 200);
            assert!(rep.body.contains("mystery"));
            assert!(rep.body.contains("```rust"));
        }
        _ => panic!("fallback must respond immediately"),
    }
}

#[test]
fn control_characters_are_escaped_in_replies() {
    let inv = CommandInvocation {
        name: "mystery".to_string(),
        options: vec![CommandOption {
            name: "note".to_string(),
            value: OptionValue::Text("a\u{8}b\u{1f}c\nd".to_string()),
        }],
    };
    let resp = discord_wikipedia::commands::debug(&inv);
    let body = discord_wikipedia::response::response_body(&resp);
    assert!(body.contains("a\\\\u0008b\\\\u001fc\\\\nd"));
    for c in body.chars() {
        assert!(c >= ' ', "reply must hold no raw control characters");
    }
}

#[test]
fn missing_title_is_ephemeral_corrective_message() {
    let inv = CommandInvocation {
        name: "article".to_string(),
        options: vec![],
    };
    match handle_command(&inv) {
        CommandAction::Done(resp) => {
            let body = discord_wikipedia::response::response_body(&resp);
            assert_eq!(
                body,
                "{\"type\":4,\"data\":{\"content\":\"You need to provide a title!\",\"flags\":64}}"
            );
        }
        _ => panic!("no outbound call may be planned"),
    }
}

#[test]
fn title_option_plans_summary_fetch() {
    let inv = CommandInvocation {
        name: "article".to_string(),
        options: vec![
            CommandOption {
                name: "title".to_string(),
                value: OptionValue::Text("Rust".to_string()),
            },
            CommandOption {
                name: "plaintext".to_string(),
                value: OptionValue::Flag(true),
            },
        ],
    };
    match handle_command(&inv) {
        CommandAction::FetchSummary { title, plaintext } => {
            assert_eq!(title, "Rust");
            assert!(plaintext);
        }
        _ => panic!("expected a summary fetch"),
    }
}

#[test]
fn collaborator_failure_is_200_with_reason_text() {
    let rep = finish_summary(false, Err("Failed to fetch page summary: nope".to_string()));
    assert_eq!(rep.status, 200);
    assert_eq!(
        rep.body,
        "{\"type\":4,\"data\":{\"content\":\"Failed to fetch page summary: nope\",\"flags\":64}}"
    );
}

#[test]
fn search_failure_is_500() {
    let rep = finish_search(Err("boom".to_string()));
    assert_eq!(rep.status, 500);
    assert_eq!(rep.body, "failed to handle autocomplete");
}

fn page(key: &str, title: &str, description: Option<&str>) -> Page {
    Page {
        id: 1,
        key: key.to_string(),
        title: title.to_string(),
        excerpt: String::new(),
        description: description.map(|s| s.to_string()),
        thumbnail: None,
    }
}

#[test]
fn search_results_become_choices() {
    let rep = finish_search(Ok(vec![
        page("Rust_(programming_language)", "Rust (programming language)", Some("memory-safe systems language")),
        page("Rust_(fungus)", "Rust (fungus)", None),
    ]));
    assert_eq!(rep.status, 200);
    assert_eq!(
        rep.body,
        "{\"type\":8,\"data\":{\"choices\":[\
         {\"name\":\"Rust (programming language): memory-safe systems language\",\"value\":\"Rust_(programming_language)\"},\
         {\"name\":\"Rust (fungus)\",\"value\":\"Rust_(fungus)\"}]}}"
    );
}

#[test]
fn decode_reencode_roundtrip_each_kind() {
    let bodies: [&[u8]; 3] = [
        br#"{"type":1}"#,
        br#"{"type":2,"data":{"name":"article","options":[{"name":"title","type":3,"value":"Rust"},{"name":"plaintext","type":5,"value":true}]}}"#,
        br#"{"type":4,"data":{"name":"article","options":[{"name":"title","type":3,"value":"Ru","focused":true}]}}"#,
    ];
    for body in bodies {
        let e = decode(body).expect("well-formed envelope decodes");
        let raw = raw_of_envelope(&e);
        let e2 = envelope_of_raw(raw).expect("re-encoded envelope reads back");
        assert_envelope_eq(&e, &e2);
        let text = encode_envelope(&e);
        let e3 = decode(text.as_bytes()).expect("canonical re-encoding decodes");
        assert_envelope_eq(&e, &e3);
    }
    let ping = decode(br#"{"type":1}"#).unwrap();
    assert_eq!(encode_envelope(&ping), "{\"type\":1}");
}

fn assert_envelope_eq(a: &InteractionEnvelope, b: &InteractionEnvelope) {
    match (a, b) {
        (InteractionEnvelope::Ping, InteractionEnvelope::Ping) => {}
        (InteractionEnvelope::Other(x), InteractionEnvelope::Other(y)) => assert_eq!(x, y),
        (InteractionEnvelope::Command(x), InteractionEnvelope::Command(y)) => {
            assert_invocation_eq(x, y)
        }
        (InteractionEnvelope::Autocomplete(x), InteractionEnvelope::Autocomplete(y)) => {
            assert_invocation_eq(x, y)
        }
        _ => panic!("envelope kinds differ"),
    }
}

fn assert_invocation_eq(a: &CommandInvocation, b: &CommandInvocation) {
    assert_eq!(a.name, b.name);
    assert_eq!(a.options.len(), b.options.len());
    for (x, y) in a.options.iter().zip(b.options.iter()) {
        assert_eq!(x.name, y.name);
        match (&x.value, &y.value) {
            (OptionValue::Text(s), OptionValue::Text(t)) => assert_eq!(s, t),
            (OptionValue::Flag(s), OptionValue::Flag(t)) => assert_eq!(s, t),
            (OptionValue::Focused(s), OptionValue::Focused(t)) => assert_eq!(s, t),
            _ => panic!("option values differ"),
        }
    }
}

#[test]
fn ping_dispatch_makes_no_fetch() {
    let e = decode(br#"{"type":1,"id":"123","token":"abc","user":{"id":"1"}}"#).unwrap();
    match e {
        InteractionEnvelope::Ping => {}
        _ => panic!("expected ping"),
    }
    match dispatch(&e) {
        Step::Respond(rep) => assert_eq!(rep.body, "{\"type\":1}"),
        _ => panic!("ping performs no outbound call"),
    }
}

#[test]
fn autocomplete_empty_query_defaults() {
    let e = decode(
        br#"{"type":4,"data":{"name":"article","options":[{"name":"title","type":3,"value":"","focused":true}]}}"#,
    )
    .unwrap();
    match dispatch(&e) {
        Step::FetchSearch { query } => assert_eq!(query, "Discord"),
        _ => panic!("expected a search fetch"),
    }
}

#[test]
fn embed_response_shape() {
    let summary_json = finish_summary(
        false,
        Ok(sample_summary("2023-01-01T00:00:00Z")),
    );
    assert_eq!(summary_json.status, 200);
    assert!(summary_json.body.starts_with("{\"type\":4,\"data\":{\"embeds\":[{\"title\":\"Rust\""));
    assert!(summary_json.body.contains("\"footer\":{\"text\":\"Powered by Wikipedia\"}"));
    assert!(summary_json.body.contains("Last updated <t:1672531200:F> (<t:1672531200:R>)"));
    assert!(summary_json.body.contains("a metal oxide"));
    assert!(!summary_json.body.contains("<p>"));
}

#[test]
fn plaintext_response_shape() {
    let rep = finish_summary(true, Ok(sample_summary("2023-01-01T00:00:00Z")));
    assert_eq!(rep.status, 200);
    assert!(rep.body.starts_with("{\"type\":4,\"data\":{\"content\":\"## [Rust](<https://en.wikipedia.org/wiki/Rust>)"));
    assert!(rep.body.contains("### Excerpt"));
    assert!(rep.body.contains("Last updated <t:1672531200:F> (<t:1672531200:R>)"));
}

#[test]
fn long_search_result_name_is_capped_in_reply() {
    let long_desc = "d".repeat(150);
    let rep = finish_search(Ok(vec![page("Key", "Title", Some(&long_desc))]));
    assert_eq!(rep.status, 200);
    let expected_name = format!("Title: {}...", "d".repeat(90));
    assert!(rep.body.contains(&expected_name));
    assert!(!rep.body.contains(&"d".repeat(91)));
}

#[test]
fn bad_timestamp_drops_last_updated_line() {
    let rep = finish_summary(false, Ok(sample_summary("not a date")));
    assert_eq!(rep.status, 200);
    assert!(!rep.body.contains("Last updated"));
}

fn sample_summary(timestamp: &str) -> WikipediaPageSummary {
    let desktop = Desktop {
        page: "https://en.wikipedia.org/wiki/Rust".to_string(),
        revisions: String::new(),
        edit: String::new(),
        talk: String::new(),
    };
    let mobile = Desktop {
        page: String::new(),
        revisions: String::new(),
        edit: String::new(),
        talk: String::new(),
    };
    WikipediaPageSummary {
        wikipedia_page_summary_type: "standard".to_string(),
        title: "Rust".to_string(),
        displaytitle: "Rust".to_string(),
        namespace: Namespace { id: 0, text: String::new() },
        wikibase_item: String::new(),
        titles: Titles {
            canonical: "Rust".to_string(),
            normalized: "Rust".to_string(),
            display: "Rust".to_string(),
        },
        pageid: 1,
        thumbnail: None,
        originalimage: None,
        lang: "en".to_string(),
        dir: "ltr".to_string(),
        revision: String::new(),
        tid: String::new(),
        timestamp: timestamp.to_string(),
        description: "<p>a metal oxide</p>".to_string(),
        description_source: String::new(),
        content_urls: ContentUrls { desktop, mobile },
        extract: String::new(),
        extract_html: "<p>Rust is a language.</p>".to_string(),
    }
}
