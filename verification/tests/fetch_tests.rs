use source_poller::fetch::{
    append_decimal, fetch_outcome, outcome_of_document, request_for, Endpoint, FetchError,
    FetchOutcome, Header, Reply,
};
use source_poller::json::parse_json;
use source_poller::record::{DecodeError, Record};

fn endpoint() -> Endpoint {
    Endpoint {
        prefix: "https://gitlab.ppro.com/api/v4/projects/".to_string(),
        suffix: "/jobs".to_string(),
    }
}

fn bare(source_id: u64, id: u64) -> Record {
    Record {
        source_id,
        id,
        created_at: None,
        started_at: None,
        finished_at: None,
        duration: None,
        name: None,
        stage: None,
        status: None,
        web_url: None,
        pipeline_id: None,
        user_id: None,
    }
}

fn answer(status: u16, body: &str) -> Reply {
    Reply::Answer { status, body: body.to_string() }
}

#[test]
fn decimal_notation_has_no_leading_zeros() {
    for (n, text) in [
        (0u64, "0"),
        (7, "7"),
        (10, "10"),
        (594, "594"),
        (1000, "1000"),
        (u64::MAX, "18446744073709551615"),
    ] {
        let mut out = String::from("x");
        append_decimal(&mut out, n);
        assert_eq!(out, format!("x{}", text));
    }
}

#[test]
fn the_address_holds_the_source() {
    let request = request_for(&endpoint(), &None, 594);
    assert_eq!(request.url, "https://gitlab.ppro.com/api/v4/projects/594/jobs");
    assert_eq!(request.headers, Vec::<Header>::new());
}

#[test]
fn a_token_travels_in_one_header() {
    let request = request_for(&endpoint(), &Some("s3cret".to_string()), 138);
    assert_eq!(request.url, "https://gitlab.ppro.com/api/v4/projects/138/jobs");
    assert_eq!(
        request.headers,
        vec![Header { name: "PRIVATE-TOKEN".to_string(), value: "s3cret".to_string() }]
    );
}

#[test]
fn a_good_answer_gives_tagged_records() {
    let outcome = fetch_outcome(594, answer(200, "[{\"id\": 1}, {\"id\": 2}]"));
    assert_eq!(outcome, FetchOutcome::Success(vec![bare(594, 1), bare(594, 2)]));
    assert!(outcome.is_success());
}

#[test]
fn every_status_from_200_to_299_is_a_success() {
    for status in [200u16, 201, 204, 299] {
        assert_eq!(fetch_outcome(1, answer(status, "[]")), FetchOutcome::Success(Vec::<Record>::new()));
    }
}

#[test]
fn any_other_status_fails_the_source() {
    for status in [0u16, 199, 300, 301, 404, 500, 503, u16::MAX] {
        let outcome = fetch_outcome(889, answer(status, "[{\"id\": 1}]"));
        assert_eq!(outcome, FetchOutcome::Failure(889, FetchError::Status(status)));
        assert!(!outcome.is_success());
    }
}

#[test]
fn no_answer_fails_the_source_with_its_detail() {
    let outcome = fetch_outcome(889, Reply::Unreachable("timed out".to_string()));
    assert_eq!(outcome, FetchOutcome::Failure(889, FetchError::Transport("timed out".to_string())));
    let outcome = fetch_outcome(125, Reply::Unreachable("connection refused".to_string()));
    assert_eq!(
        outcome,
        FetchOutcome::Failure(125, FetchError::Transport("connection refused".to_string()))
    );
}

#[test]
fn a_body_that_is_no_json_fails_the_source() {
    let outcome = fetch_outcome(156, answer(200, "<html>busy</html>"));
    assert_eq!(outcome, FetchOutcome::Failure(156, FetchError::Decode(DecodeError::NotJson)));
}

#[test]
fn a_body_that_is_no_array_fails_the_source() {
    let outcome = fetch_outcome(156, answer(200, "{\"message\": \"401 Unauthorized\"}"));
    assert_eq!(outcome, FetchOutcome::Failure(156, FetchError::Decode(DecodeError::NotAnArray)));
}

#[test]
fn an_item_without_identifier_fails_the_source() {
    let outcome = fetch_outcome(156, answer(200, "[{\"id\": 1}, {\"name\": \"x\"}]"));
    assert_eq!(
        outcome,
        FetchOutcome::Failure(156, FetchError::Decode(DecodeError::MissingIdentifier { index: 1 }))
    );
}

#[test]
fn the_outcome_of_a_document_is_that_of_its_records() {
    assert_eq!(
        outcome_of_document(7, None),
        FetchOutcome::Failure(7, FetchError::Decode(DecodeError::NotJson))
    );
    assert_eq!(
        outcome_of_document(7, parse_json("[{\"id\": 3}]")),
        FetchOutcome::Success(vec![bare(7, 3)])
    );
    assert_eq!(
        outcome_of_document(7, parse_json("3")),
        FetchOutcome::Failure(7, FetchError::Decode(DecodeError::NotAnArray))
    );
}

#[test]
fn one_failing_source_leaves_the_others_their_records() {
    let sources = [138u64, 125, 156, 889, 594];
    let outcomes: Vec<FetchOutcome> = sources
        .iter()
        .map(|&source| {
            if source == 889 {
                fetch_outcome(source, answer(500, "oops"))
            } else {
                fetch_outcome(source, answer(200, "[{\"id\": 1}]"))
            }
        })
        .collect();
    assert_eq!(outcomes[0], FetchOutcome::Success(vec![bare(138, 1)]));
    assert_eq!(outcomes[1], FetchOutcome::Success(vec![bare(125, 1)]));
    assert_eq!(outcomes[2], FetchOutcome::Success(vec![bare(156, 1)]));
    assert_eq!(outcomes[3], FetchOutcome::Failure(889, FetchError::Status(500)));
    assert_eq!(outcomes[4], FetchOutcome::Success(vec![bare(594, 1)]));
}
