use framewatch::dispatch::{
    conclude, prepare_request, resolve_endpoint, AnalysisError, AnalysisResult, DetectedObject,
    ReplyBody, Scalar, TransportFailure, UpstreamFailure, UpstreamReply, DEFAULT_ENDPOINT,
    UPSTREAM_FAILED,
};

fn scalar(value: f32) -> Scalar {
    Scalar::from_bits(value.to_bits())
}

fn sample_result() -> AnalysisResult {
    AnalysisResult {
        threat_detected: true,
        confidence: scalar(0.875),
        objects: vec![
            DetectedObject {
                class: String::from("person"),
                confidence: scalar(0.5),
                bbox: [scalar(1.0), scalar(2.0), scalar(30.5), scalar(40.25)],
            },
            DetectedObject {
                class: String::from("bag"),
                confidence: scalar(0.25),
                bbox: [scalar(0.0), scalar(0.0), scalar(8.0), scalar(8.0)],
            },
        ],
        timestamp: 1_700_000_000,
    }
}

#[test]
fn endpoint_defaults_when_unset() {
    assert_eq!(resolve_endpoint(None), "http://ml-service:8000/detect");
    assert_eq!(DEFAULT_ENDPOINT, "http://ml-service:8000/detect");
}

#[test]
fn endpoint_can_be_overridden() {
    let configured: Option<String> = Some(String::from("http://localhost:9000/find"));
    assert_eq!(resolve_endpoint(configured), "http://localhost:9000/find");
    assert_eq!(resolve_endpoint(Some(String::new())), "");
}

#[test]
fn request_carries_the_frame_as_its_body() {
    let frame: Vec<u8> = vec![1, 2, 3, 250, 0];
    let request = prepare_request(None, frame.clone());
    assert_eq!(request.body, frame);
    assert_eq!(request.endpoint, DEFAULT_ENDPOINT);
    let other = prepare_request(Some(String::from("http://d/")), Vec::new());
    assert_eq!(other.endpoint, "http://d/");
    assert!(other.body.is_empty());
}

#[test]
fn conclude_returns_the_decoded_result() {
    let reply = UpstreamReply::Answered { status: 200, body: ReplyBody::Decoded(sample_result()) };
    assert_eq!(conclude(reply), Ok(sample_result()));
    let created = UpstreamReply::Answered { status: 299, body: ReplyBody::Decoded(sample_result()) };
    assert_eq!(conclude(created), Ok(sample_result()));
}

#[test]
fn conclude_keeps_the_order_of_the_objects() {
    let reply = UpstreamReply::Answered { status: 200, body: ReplyBody::Decoded(sample_result()) };
    let result = conclude(reply).unwrap();
    assert_eq!(result.objects[0].class, "person");
    assert_eq!(result.objects[1].class, "bag");
}

#[test]
fn conclude_unreachable_is_a_transport_failure() {
    let error = conclude(UpstreamReply::Unreachable).unwrap_err();
    assert_eq!(error.cause, UpstreamFailure::Transport(TransportFailure::Unreachable));
    assert!(error.is_transport());
}

#[test]
fn conclude_timeout_is_a_transport_failure() {
    let error = conclude(UpstreamReply::TimedOut).unwrap_err();
    assert_eq!(error.cause, UpstreamFailure::Transport(TransportFailure::TimedOut));
    assert!(error.is_transport());
}

#[test]
fn conclude_bad_status_is_a_transport_failure() {
    let statuses: [u16; 6] = [0, 199, 300, 404, 500, 65535];
    for status in statuses.iter() {
        let reply =
            UpstreamReply::Answered { status: *status, body: ReplyBody::Decoded(sample_result()) };
        let error = conclude(reply).unwrap_err();
        assert_eq!(
            error.cause,
            UpstreamFailure::Transport(TransportFailure::Rejected { status: *status })
        );
    }
}

#[test]
fn conclude_status_comes_before_the_body() {
    let reply = UpstreamReply::Answered { status: 503, body: ReplyBody::Malformed };
    let error = conclude(reply).unwrap_err();
    assert_eq!(error.cause, UpstreamFailure::Transport(TransportFailure::Rejected { status: 503 }));
}

#[test]
fn conclude_malformed_body_is_a_parse_failure() {
    let reply = UpstreamReply::Answered { status: 200, body: ReplyBody::Malformed };
    let error = conclude(reply).unwrap_err();
    assert_eq!(error.cause, UpstreamFailure::Parse);
    assert!(!error.is_transport());
}

#[test]
fn every_failure_reads_the_same() {
    let transport = AnalysisError { cause: UpstreamFailure::Transport(TransportFailure::TimedOut) };
    let parse = AnalysisError { cause: UpstreamFailure::Parse };
    assert_eq!(transport.message(), "upstream analysis failed");
    assert_eq!(parse.message(), transport.message());
    assert_eq!(UPSTREAM_FAILED, "upstream analysis failed");
}

#[test]
fn scalar_keeps_its_bits() {
    let values: [f32; 5] = [0.0, 1.0, -2.5, 0.333, 1.0e30];
    for value in values.iter() {
        let s = scalar(*value);
        assert_eq!(s.to_bits(), value.to_bits());
        assert_eq!(f32::from_bits(s.to_bits()), *value);
    }
}

#[test]
fn scalar_unit_interval_agrees_with_the_numbers() {
    let values: [f32; 16] = [
        0.0,
        -0.0,
        1.0,
        0.5,
        0.999_999_94,
        1.000_000_1,
        f32::MIN_POSITIVE,
        1.0e-45,
        -1.0e-45,
        -0.5,
        -1.0,
        2.0,
        f32::MAX,
        f32::INFINITY,
        f32::NEG_INFINITY,
        f32::NAN,
    ];
    for value in values.iter() {
        let expected: bool = 0.0 <= *value && *value <= 1.0;
        assert_eq!(scalar(*value).is_unit_interval(), expected, "{}", value);
    }
    assert!(!Scalar::from_bits(0xffc0_0000).is_unit_interval());
    assert!(!Scalar::from_bits(0x7fc0_0000).is_unit_interval());
}

#[test]
fn well_formed_result() {
    assert!(sample_result().is_well_formed());
    let mut edge = sample_result();
    edge.confidence = scalar(1.0);
    assert!(edge.is_well_formed());
    edge.confidence = scalar(0.0);
    assert!(edge.is_well_formed());
    let mut object_only = sample_result();
    object_only.objects[1].confidence = scalar(7.0);
    assert!(object_only.is_well_formed());
}

#[test]
fn ill_formed_result() {
    let mut result = sample_result();
    result.confidence = scalar(1.5);
    assert!(!result.is_well_formed());
    result.confidence = scalar(-0.25);
    assert!(!result.is_well_formed());
    result.confidence = scalar(f32::NAN);
    assert!(!result.is_well_formed());
}

#[test]
fn conclude_rejects_a_confidence_out_of_range() {
    let mut result = sample_result();
    result.confidence = scalar(1.25);
    let reply = UpstreamReply::Answered { status: 200, body: ReplyBody::Decoded(result) };
    let error = conclude(reply).unwrap_err();
    assert_eq!(error.cause, UpstreamFailure::Parse);
    assert_eq!(error.message(), "upstream analysis failed");
}
