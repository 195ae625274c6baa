use listmonk_sync::model::RemoteCustomer;
use listmonk_sync::reconcile::{bucket, reconcile};

fn customer(
    email: Option<&str>,
    given: Option<&str>,
    family: Option<&str>,
    unsubscribed: bool,
) -> RemoteCustomer {
    RemoteCustomer {
        email_address: email.map(|s| s.to_string()),
        given_name: given.map(|s| s.to_string()),
        family_name: family.map(|s| s.to_string()),
        email_unsubscribed: unsubscribed,
    }
}

#[test]
fn dedup_is_case_insensitive() {
    let input = vec![
        customer(Some("A@X.com"), None, None, false),
        customer(Some("a@x.com"), None, None, false),
        customer(Some("A@x.COM"), None, None, false),
        customer(Some("other@x.com"), None, None, false),
    ];
    let out = reconcile(&input);
    assert_eq!(out.len(), 2);
    for i in 0..out.len() {
        for j in 0..out.len() {
            if i != j {
                assert_ne!(out[i].email.to_lowercase(), out[j].email.to_lowercase());
            }
        }
    }
}

#[test]
fn emails_come_from_input() {
    let input = vec![
        customer(Some("One@x.com"), Some("Ann"), None, false),
        customer(Some("two@y.com"), None, Some("Lee"), true),
        customer(None, Some("Ghost"), None, false),
    ];
    let out = reconcile(&input);
    assert_eq!(out.len(), 2);
    for s in &out {
        assert!(s.email == "One@x.com" || s.email == "two@y.com");
    }
}

#[test]
fn named_record_wins_named_first() {
    let input = vec![
        customer(Some("a@x.com"), Some("Jo"), None, true),
        customer(Some("A@x.com"), None, None, false),
    ];
    let out = reconcile(&input);
    assert_eq!(out.len(), 1);
    assert_eq!(out[0].email, "a@x.com");
    assert_eq!(out[0].name, "Jo");
    assert!(!out[0].subscribed);
}

#[test]
fn named_record_wins_named_second() {
    // The scenario of the precedence rule: the named record wins even though
    // it is unsubscribed, whatever the input order.
    let input = vec![
        customer(Some("A@x.com"), None, None, false),
        customer(Some("a@x.com"), Some("Jo"), None, true),
    ];
    let out = reconcile(&input);
    assert_eq!(out.len(), 1);
    assert_eq!(out[0].email, "a@x.com");
    assert_eq!(out[0].name, "Jo");
    assert!(!out[0].subscribed);
}

#[test]
fn subscribed_record_wins_among_equally_named() {
    let input = vec![
        customer(Some("b@y.com"), Some("Ann"), None, true),
        customer(Some("B@y.com"), Some("Ann"), None, false),
    ];
    let out = reconcile(&input);
    assert_eq!(out.len(), 1);
    assert_eq!(out[0].email, "B@y.com");
    assert!(out[0].subscribed);

    let reversed = vec![
        customer(Some("B@y.com"), Some("Ann"), None, false),
        customer(Some("b@y.com"), Some("Ann"), None, true),
    ];
    let out2 = reconcile(&reversed);
    assert_eq!(out2.len(), 1);
    assert_eq!(out2[0].email, "B@y.com");
    assert!(out2[0].subscribed);
}

#[test]
fn equal_precedence_keeps_first() {
    let input = vec![
        customer(Some("c@z.com"), Some("First"), None, false),
        customer(Some("C@z.com"), Some("Second"), None, false),
    ];
    let out = reconcile(&input);
    assert_eq!(out.len(), 1);
    assert_eq!(out[0].name, "First");
}

#[test]
fn customer_without_email_is_absent_from_all_buckets() {
    let input = vec![
        customer(None, Some("No"), Some("Mail"), false),
        customer(Some("kept@x.com"), None, None, false),
    ];
    let out = reconcile(&input);
    let subscribed = bucket(&out, true);
    let blocked = bucket(&out, false);
    assert_eq!(subscribed.len() + blocked.len(), 1);
    for s in subscribed.iter().chain(blocked.iter()) {
        assert_eq!(s.email, "kept@x.com");
    }
}

#[test]
fn display_name_defaults() {
    let both = reconcile(&vec![customer(Some("a@x.com"), Some("Jo"), Some("Lee"), false)]);
    assert_eq!(both[0].name, "Jo Lee");

    let given_only = reconcile(&vec![customer(Some("a@x.com"), Some("Jo"), None, false)]);
    assert_eq!(given_only[0].name, "Jo");

    let family_only = reconcile(&vec![customer(Some("a@x.com"), None, Some("Lee"), false)]);
    assert_eq!(family_only[0].name, "Customer Lee");

    let neither = reconcile(&vec![customer(Some("a@x.com"), None, None, false)]);
    assert_eq!(neither[0].name, "Customer");

    let empty_given = reconcile(&vec![customer(Some("a@x.com"), Some(""), Some("Lee"), false)]);
    assert_eq!(empty_given[0].name, "Lee");
}

#[test]
fn display_name_is_trimmed() {
    let padded = reconcile(&vec![customer(Some("a@x.com"), Some(" Jo"), Some("Lee "), false)]);
    assert_eq!(padded[0].name, "Jo Lee");

    let trailing = reconcile(&vec![customer(Some("a@x.com"), Some("Jo\t"), None, false)]);
    assert_eq!(trailing[0].name, "Jo");

    let blank_parts = reconcile(&vec![customer(Some("a@x.com"), Some("  "), Some(" "), false)]);
    assert_eq!(blank_parts[0].name, "");
}

#[test]
fn subscribed_flag_negates_unsubscribed() {
    let out = reconcile(&vec![
        customer(Some("in@x.com"), None, None, false),
        customer(Some("out@x.com"), None, None, true),
    ]);
    assert_eq!(out.len(), 2);
    for s in &out {
        if s.email == "in@x.com" {
            assert!(s.subscribed);
        } else {
            assert!(!s.subscribed);
        }
    }
    assert!(out.iter().all(|s| s.attributes.is_empty()));
}

#[test]
fn buckets_split_by_flag() {
    let out = reconcile(&vec![
        customer(Some("in@x.com"), None, None, false),
        customer(Some("out@x.com"), None, None, true),
    ]);
    let subscribed = bucket(&out, true);
    let blocked = bucket(&out, false);
    assert_eq!(subscribed.len(), 1);
    assert_eq!(blocked.len(), 1);
    assert_eq!(subscribed[0].email, "in@x.com");
    assert_eq!(blocked[0].email, "out@x.com");
}
