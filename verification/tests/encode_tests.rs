use listmonk_sync::csvenc::generate_import_csv;
use listmonk_sync::model::Subscriber;

fn subscriber(email: &str, name: &str, subscribed: bool) -> Subscriber {
    Subscriber {
        email: email.to_string(),
        name: name.to_string(),
        attributes: String::new(),
        subscribed,
    }
}

#[test]
fn empty_set_encodes_to_empty_text() {
    let out = generate_import_csv(&Vec::new());
    assert_eq!(out, "");
}

#[test]
fn one_subscriber_exact_text() {
    let out = generate_import_csv(&vec![subscriber("a@x.com", "Jo", true)]);
    assert_eq!(
        out,
        "\"email\",\"name\",\"attributes\"\n\"a@x.com\",\"Jo\",\"\"\n"
    );
}

#[test]
fn quotes_are_doubled() {
    let out = generate_import_csv(&vec![subscriber("q@x.com", "Jo \"The Ox\" Lee", true)]);
    assert_eq!(
        out,
        "\"email\",\"name\",\"attributes\"\n\"q@x.com\",\"Jo \"\"The Ox\"\" Lee\",\"\"\n"
    );
}

#[test]
fn round_trip_through_standard_reader() {
    let subs = vec![
        subscriber("a@x.com", "Jo Lee", true),
        subscriber("b@y.com", "Comma, Inc", false),
        subscriber("c@z.com", "Quote \"Q\"", true),
        subscriber("d@w.com", "Line\nBreak", false),
        subscriber("e@v.com", "", true),
    ];
    let text = generate_import_csv(&subs);

    let mut reader = csv::ReaderBuilder::new().from_reader(text.as_bytes());
    let headers = reader.headers().unwrap().clone();
    assert_eq!(&headers[0], "email");
    assert_eq!(&headers[1], "name");
    assert_eq!(&headers[2], "attributes");

    let records: Vec<csv::StringRecord> = reader.records().map(|r| r.unwrap()).collect();
    assert_eq!(records.len(), subs.len());
    for (record, sub) in records.iter().zip(subs.iter()) {
        assert_eq!(&record[0], sub.email.as_str());
        assert_eq!(&record[1], sub.name.as_str());
        assert_eq!(&record[2], "");
    }
}
