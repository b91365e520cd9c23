use upscale_orchestrator::responses::json_escape;
use upscale_orchestrator::responses::ping_body;
use upscale_orchestrator::responses::result_body;
use upscale_orchestrator::responses::status_body;
use upscale_orchestrator::status::JobStatus;

#[test]
fn ping_body_is_the_health_object() {
    assert_eq!(ping_body(), "{\"status\":\"healthy\",\"data\":\"pong\"}");
}

#[test]
fn status_body_wraps_the_wire_name() {
    assert_eq!(status_body(JobStatus::Processing), "{\"status\":\"Processing\"}");
    assert_eq!(status_body(JobStatus::Completed), "{\"status\":\"Completed\"}");
    assert_eq!(status_body(JobStatus::Failed), "{\"status\":\"Failed\"}");
    assert_eq!(status_body(JobStatus::Error), "{\"status\":\"Error\"}");
}

#[test]
fn escape_leaves_plain_text_alone() {
    assert_eq!(json_escape("abc-123./x"), "abc-123./x");
}

#[test]
fn escape_quotes_and_backslashes() {
    assert_eq!(json_escape("he\"llo\\"), "he\\\"llo\\\\");
}

#[test]
fn escape_writes_control_characters_as_unicode_escapes() {
    assert_eq!(json_escape("a\nb"), "a\\u000ab");
    assert_eq!(json_escape("\u{1}"), "\\u0001");
    assert_eq!(json_escape("\u{1f}"), "\\u001f");
    assert_eq!(json_escape("\t"), "\\u0009");
}

#[test]
fn body_escapes_a_control_character_in_the_path() {
    assert_eq!(
        result_body(JobStatus::Completed, "id-1", "a\tb"),
        "{\"status\":\"Completed\",\"data\":{\"request_id\":\"id-1\",\"upscaled_path\":\"a\\u0009b\"}}"
    );
}

#[test]
fn completed_body_carries_the_artifact_path() {
    let id = "123e4567-e89b-12d3-a456-426614174000";
    let path = "./cache/123e4567-e89b-12d3-a456-426614174000.png";
    assert_eq!(
        result_body(JobStatus::Completed, id, path),
        "{\"status\":\"Completed\",\"data\":{\"request_id\":\"123e4567-e89b-12d3-a456-426614174000\",\"upscaled_path\":\"./cache/123e4567-e89b-12d3-a456-426614174000.png\"}}"
    );
}

#[test]
fn failed_body_has_no_artifact_path() {
    let id = "123e4567-e89b-12d3-a456-426614174000";
    assert_eq!(
        result_body(JobStatus::Failed, id, "ignored"),
        "{\"status\":\"Failed\",\"data\":{\"request_id\":\"123e4567-e89b-12d3-a456-426614174000\"}}"
    );
}

#[test]
fn error_body_has_no_artifact_path() {
    assert_eq!(
        result_body(JobStatus::Error, "id-1", ""),
        "{\"status\":\"Error\",\"data\":{\"request_id\":\"id-1\"}}"
    );
}

#[test]
fn body_escapes_a_hostile_path() {
    assert_eq!(
        result_body(JobStatus::Completed, "id-1", "a\"b"),
        "{\"status\":\"Completed\",\"data\":{\"request_id\":\"id-1\",\"upscaled_path\":\"a\\\"b\"}}"
    );
}
