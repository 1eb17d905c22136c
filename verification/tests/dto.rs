use xiangqi::biz::BizError;
use xiangqi::dto::{CreateArticleDto, DtoRequest, DtoResponse, ResponseStatus};

#[test]
fn request_envelope_carries_its_payload() {
    let mut req: DtoRequest<u64> = DtoRequest::new(5);
    assert_eq!(*req.get_data(), 5);
    req.set_data(12);
    assert_eq!(*req.get_data(), 12);
}

#[test]
fn response_envelope_starts_successful() {
    let resp: DtoResponse<u64> = DtoResponse::new(7);
    assert_eq!(*resp.get_data(), 7);
    assert!(resp.get_response_status().is_success());
    assert!(!resp.get_response_status().is_failure());
}

#[test]
fn response_status_follows_its_error_code() {
    let mut status = ResponseStatus::default();
    assert!(status.is_success());
    status.set_error_code(String::from("not_found"));
    status.set_error_message(String::from("no such article"));
    assert!(status.is_failure());
    assert!(!status.is_success());
    assert_eq!(status.get_error_code().as_str(), "not_found");
    assert_eq!(status.get_error_message().as_str(), "no such article");
    status.set_error_code(String::new());
    assert!(status.is_success());
    assert_eq!(status.get_error_message().as_str(), "no such article");
}

#[test]
fn response_status_can_be_replaced() {
    let mut resp: DtoResponse<u64> = DtoResponse::new(1);
    let mut failed = ResponseStatus::default();
    failed.set_error_code(String::from("oops"));
    resp.set_response_status(failed);
    assert!(resp.get_response_status().is_failure());
    assert_eq!(*resp.get_data(), 1);
    resp.set_data(2);
    assert!(resp.get_response_status().is_failure());
    assert_eq!(*resp.get_data(), 2);
}

#[test]
fn response_status_renders_like_a_record() {
    let mut status = ResponseStatus::default();
    status.set_error_code(String::from("E1"));
    status.set_error_message(String::from("boom"));
    assert_eq!(
        status.display_string(),
        "{ error_code: \"E1\", error_message: \"boom\" }"
    );
}

#[test]
fn biz_error_keeps_code_and_message() {
    let e = BizError::new("internal_server_error", "Internal Server Error");
    assert_eq!(e.get_code().as_str(), "internal_server_error");
    assert_eq!(e.get_message().as_str(), "Internal Server Error");
    assert_eq!(
        e.display_string(),
        "{ code: \"internal_server_error\", message: \"Internal Server Error\" }"
    );
    let empty = BizError::default();
    assert_eq!(empty.get_code().as_str(), "");
    assert_eq!(empty.get_message().as_str(), "");
}

#[test]
fn article_payload_travels_in_the_envelopes() {
    let dto = CreateArticleDto {
        title: String::from("title"),
        body: String::from("body"),
    };
    let req = DtoRequest::new(dto);
    assert_eq!(req.get_data().title.as_str(), "title");
    let resp = DtoResponse::new(req.get_data().clone());
    assert_eq!(resp.get_data().body.as_str(), "body");
}
