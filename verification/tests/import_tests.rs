use listmonk_sync::import::{build_import_batch, import_params_json, plan_run};
use listmonk_sync::model::{
    check_upload_status, classify_fetch_status, RemoteCustomer, RunConfig, Subscriber, SyncError,
};

fn config(confirmation: bool, overwrite: bool, ids: Vec<u64>) -> RunConfig {
    RunConfig {
        run_every: 300,
        listmonk_domain: "lists.example.org".to_string(),
        listmonk_list_ids: ids,
        listmonk_confirmation: confirmation,
        listmonk_overwrite: overwrite,
    }
}

fn subscriber(email: &str, name: &str, subscribed: bool) -> Subscriber {
    Subscriber {
        email: email.to_string(),
        name: name.to_string(),
        attributes: String::new(),
        subscribed,
    }
}

#[test]
fn params_exact_text() {
    let cfg = config(true, false, vec![3, 17]);
    let params = import_params_json(true, &cfg);
    assert_eq!(
        params,
        "{\"mode\":\"subscribe\",\"delim\":\",\",\"subscription_status\":\"confirmed\",\"lists\":[3,17],\"overwrite\":false}"
    );
    let blocklist = import_params_json(false, &cfg);
    assert_eq!(
        blocklist,
        "{\"mode\":\"blocklist\",\"delim\":\",\",\"subscription_status\":\"confirmed\",\"lists\":[3,17],\"overwrite\":false}"
    );
}

#[test]
fn params_parse_as_json() {
    let cfg = config(false, true, vec![1, 20230119, 0]);
    let params = import_params_json(false, &cfg);
    let value: serde_json::Value = serde_json::from_str(&params).unwrap();
    assert_eq!(value["mode"], serde_json::Value::String("blocklist".to_string()));
    assert_eq!(value["delim"], serde_json::Value::String(",".to_string()));
    assert_eq!(
        value["subscription_status"],
        serde_json::Value::String("unconfirmed".to_string())
    );
    assert_eq!(value["overwrite"], serde_json::Value::Bool(true));
    let lists = value["lists"].as_array().unwrap();
    assert_eq!(lists.len(), 3);
    assert_eq!(lists[0].as_u64(), Some(1));
    assert_eq!(lists[1].as_u64(), Some(20230119));
    assert_eq!(lists[2].as_u64(), Some(0));
}

#[test]
fn params_hold_extreme_list_ids() {
    let cfg = config(true, true, vec![u64::MAX, 0, 10]);
    let params = import_params_json(true, &cfg);
    assert!(params.contains("\"lists\":[18446744073709551615,0,10]"));
    let value: serde_json::Value = serde_json::from_str(&params).unwrap();
    let lists = value["lists"].as_array().unwrap();
    assert_eq!(lists[0].as_u64(), Some(u64::MAX));
}

#[test]
fn batch_holds_only_its_bucket() {
    let subs = vec![
        subscriber("in@x.com", "Jo", true),
        subscriber("out@x.com", "Ann", false),
    ];
    let cfg = config(true, true, vec![5]);
    let subscribe_batch = build_import_batch(&subs, true, &cfg);
    assert!(subscribe_batch.subscribe);
    assert_eq!(subscribe_batch.count, 1);
    assert!(subscribe_batch.csv.contains("in@x.com"));
    assert!(!subscribe_batch.csv.contains("out@x.com"));

    let blocklist_batch = build_import_batch(&subs, false, &cfg);
    assert!(!blocklist_batch.subscribe);
    assert_eq!(blocklist_batch.count, 1);
    assert!(blocklist_batch.csv.contains("out@x.com"));
    assert!(!blocklist_batch.csv.contains("in@x.com"));
}

#[test]
fn plan_run_builds_both_buckets() {
    let customers = vec![
        RemoteCustomer {
            email_address: Some("a@x.com".to_string()),
            given_name: Some("Jo".to_string()),
            family_name: None,
            email_unsubscribed: false,
        },
        RemoteCustomer {
            email_address: Some("b@x.com".to_string()),
            given_name: None,
            family_name: None,
            email_unsubscribed: true,
        },
        RemoteCustomer {
            email_address: None,
            given_name: Some("Ghost".to_string()),
            family_name: None,
            email_unsubscribed: false,
        },
    ];
    let cfg = config(false, false, vec![9]);
    let (subscribers, batches) = plan_run(&customers, &cfg);
    assert_eq!(subscribers.len(), 2);
    assert_eq!(batches.len(), 2);
    assert!(batches[0].subscribe);
    assert!(!batches[1].subscribe);
    assert_eq!(batches[0].count, 1);
    assert_eq!(batches[1].count, 1);
    assert!(batches[0].csv.contains("a@x.com"));
    assert!(batches[1].csv.contains("b@x.com"));
    assert!(batches[0].params.contains("\"mode\":\"subscribe\""));
    assert!(batches[1].params.contains("\"mode\":\"blocklist\""));
}

#[test]
fn duplicate_emails_end_to_end_named_record_wins() {
    // Two records for one case-insensitive email: the anonymous subscribed
    // one and the named unsubscribed one. The named record wins, so the one
    // subscriber lands in the blocklist bucket with the name "Jo".
    let customers = vec![
        RemoteCustomer {
            email_address: Some("A@x.com".to_string()),
            given_name: None,
            family_name: None,
            email_unsubscribed: false,
        },
        RemoteCustomer {
            email_address: Some("a@x.com".to_string()),
            given_name: Some("Jo".to_string()),
            family_name: None,
            email_unsubscribed: true,
        },
    ];
    let cfg = config(true, true, vec![2]);
    let (subscribers, batches) = plan_run(&customers, &cfg);
    assert_eq!(subscribers.len(), 1);
    assert_eq!(subscribers[0].email, "a@x.com");
    assert_eq!(subscribers[0].name, "Jo");
    assert!(!subscribers[0].subscribed);
    assert_eq!(batches[0].count, 0);
    assert_eq!(batches[0].csv, "");
    assert_eq!(batches[1].count, 1);
    assert_eq!(
        batches[1].csv,
        "\"email\",\"name\",\"attributes\"\n\"a@x.com\",\"Jo\",\"\"\n"
    );
}

#[test]
fn non_2xx_upload_is_a_reported_failure() {
    assert!(matches!(
        check_upload_status(500),
        Err(SyncError::ServerRejected(500))
    ));
    assert!(matches!(
        check_upload_status(401),
        Err(SyncError::ServerRejected(401))
    ));
    assert!(matches!(
        check_upload_status(302),
        Err(SyncError::ServerRejected(302))
    ));
    assert!(matches!(
        check_upload_status(199),
        Err(SyncError::ServerRejected(199))
    ));
    assert!(check_upload_status(200).is_ok());
    assert!(check_upload_status(204).is_ok());
    assert!(check_upload_status(299).is_ok());
    let err = check_upload_status(503).unwrap_err();
    assert_eq!(err.describe(), "destination rejected the upload");
}

#[test]
fn fetch_status_classification() {
    assert!(classify_fetch_status(200).is_ok());
    assert!(classify_fetch_status(299).is_ok());
    assert!(matches!(classify_fetch_status(401), Err(SyncError::Auth)));
    assert!(matches!(classify_fetch_status(403), Err(SyncError::Auth)));
    assert!(matches!(
        classify_fetch_status(500),
        Err(SyncError::Transport)
    ));
    assert!(matches!(
        classify_fetch_status(404),
        Err(SyncError::Transport)
    ));
    assert_eq!(SyncError::Auth.describe(), "authentication rejected");
    assert_eq!(SyncError::Transport.describe(), "transport failure");
    assert_eq!(SyncError::Decode.describe(), "malformed response body");
}
