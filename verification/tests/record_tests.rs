use source_poller::json::{parse_json, Json, Member, Number};
use source_poller::record::{decode_record, decode_records, DecodeError, Record};

fn bare(source_id: u64, id: u64) -> Record {
    Record {
        source_id,
        id,
        created_at: None,
        started_at: None,
        finished_at: None,
        duration: None,
        name: None,
        stage: None,
        status: None,
        web_url: None,
        pipeline_id: None,
        user_id: None,
    }
}

const FULL: &str = "{\"id\": 4711, \"created_at\": \"2021-03-01T10:00:00Z\", \
    \"started_at\": \"2021-03-01T10:00:05Z\", \"finished_at\": \"2021-03-01T10:01:00Z\", \
    \"duration\": 55.25, \"name\": \"unit\", \"stage\": \"test\", \"status\": \"success\", \
    \"web_url\": \"https://example.org/jobs/4711\", \
    \"pipeline\": {\"id\": 90, \"project_id\": 1, \"ref\": \"main\"}, \
    \"user\": {\"id\": 12, \"name\": \"Ada\"}}";

#[test]
fn decodes_every_attribute() {
    let elem = parse_json(FULL).unwrap();
    let record = decode_record(594, &elem).unwrap();
    let expected = Record {
        source_id: 594,
        id: 4711,
        created_at: Some("2021-03-01T10:00:00Z".to_string()),
        started_at: Some("2021-03-01T10:00:05Z".to_string()),
        finished_at: Some("2021-03-01T10:01:00Z".to_string()),
        duration: Some(Number { whole: None, text: "55.25".to_string() }),
        name: Some("unit".to_string()),
        stage: Some("test".to_string()),
        status: Some("success".to_string()),
        web_url: Some("https://example.org/jobs/4711".to_string()),
        pipeline_id: Some(90),
        user_id: Some(12),
    };
    assert_eq!(record, expected);
}

#[test]
fn tags_every_record_with_the_source_whatever_the_payload_says() {
    let doc = parse_json(
        "[{\"id\": 1, \"source_id\": 3, \"project_id\": 138}, {\"id\": 2, \"sourceId\": 889}, {\"id\": 3}]",
    )
    .unwrap();
    let records = decode_records(594, &doc).unwrap();
    assert_eq!(records, vec![bare(594, 1), bare(594, 2), bare(594, 3)]);
    for record in &records {
        assert_eq!(record.source_id, 594);
    }
}

#[test]
fn a_record_without_finished_at_decodes_with_it_absent() {
    let doc = parse_json("[{\"id\": 5, \"name\": \"deploy\", \"status\": \"running\"}]").unwrap();
    let records = decode_records(138, &doc).unwrap();
    let mut expected = bare(138, 5);
    expected.name = Some("deploy".to_string());
    expected.status = Some("running".to_string());
    assert_eq!(records, vec![expected]);
    assert_eq!(records[0].finished_at, None);
}

#[test]
fn an_attribute_of_another_shape_is_absent() {
    let doc = parse_json(
        "[{\"id\": 5, \"name\": 17, \"finished_at\": null, \"duration\": \"long\", \
          \"stage\": [\"a\"], \"pipeline\": 3, \"user\": {\"id\": \"ada\"}}]",
    )
    .unwrap();
    assert_eq!(decode_records(125, &doc), Ok(vec![bare(125, 5)]));
}

#[test]
fn a_whole_duration_is_kept() {
    let doc = parse_json("[{\"id\": 5, \"duration\": 12}]").unwrap();
    let mut expected = bare(125, 5);
    expected.duration = Some(Number { whole: Some(12), text: "12".to_string() });
    assert_eq!(decode_records(125, &doc), Ok(vec![expected]));
}

#[test]
fn an_empty_array_holds_no_records() {
    let doc = parse_json("[]").unwrap();
    assert_eq!(decode_records(156, &doc), Ok(Vec::<Record>::new()));
}

#[test]
fn a_document_that_is_no_array_is_refused() {
    for text in ["{\"id\": 1}", "null", "3", "\"[]\"", "true"] {
        let doc = parse_json(text).unwrap();
        assert_eq!(decode_records(156, &doc), Err(DecodeError::NotAnArray));
    }
}

#[test]
fn the_first_item_without_identifier_fails_the_payload() {
    let doc = parse_json("[{\"id\": 1}, {\"name\": \"x\"}, {\"id\": 3}, {}]").unwrap();
    assert_eq!(decode_records(156, &doc), Err(DecodeError::MissingIdentifier { index: 1 }));
    let doc = parse_json("[7]").unwrap();
    assert_eq!(decode_records(156, &doc), Err(DecodeError::MissingIdentifier { index: 0 }));
}

#[test]
fn an_identifier_must_be_a_whole_number() {
    for text in ["{\"id\": \"7\"}", "{\"id\": -7}", "{\"id\": 7.5}", "{\"id\": null}", "{}", "[]", "7"] {
        let elem = parse_json(text).unwrap();
        assert_eq!(decode_record(1, &elem), None);
    }
    let elem = parse_json("{\"id\": 0}").unwrap();
    assert_eq!(decode_record(1, &elem), Some(bare(1, 0)));
}

#[test]
fn the_first_of_repeated_members_counts() {
    let elem = Json::Object(vec![
        Member { key: "id".to_string(), value: Json::Number(Number { whole: Some(8), text: "8".to_string() }) },
        Member { key: "name".to_string(), value: Json::Text("first".to_string()) },
        Member { key: "name".to_string(), value: Json::Text("second".to_string()) },
    ]);
    let mut expected = bare(2, 8);
    expected.name = Some("first".to_string());
    assert_eq!(decode_record(2, &elem), Some(expected));
}
