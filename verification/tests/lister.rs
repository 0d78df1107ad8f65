use image_cache::error::ClientError;
use image_cache::json::Json;
use image_cache::lister::{
    image_list_from, list_images, read_image_list, ImageListRequest, ImageListResponse,
    ListReply, IMAGE_LIST_ENDPOINT, SHAPE_FAULT,
};

fn shape_fault(raw: &str) -> ClientError {
    ClientError::Parse { detail: SHAPE_FAULT.to_string(), raw: raw.to_string() }
}

#[test]
fn list_images_returns_the_data_in_order() {
    let body = "{\"success\":true,\"message\":\"ok\",\"status\":200,\"data\":[\"https://h/x.png\",\"https://h/y.png\"]}";
    let urls = list_images(ListReply::Body(body.to_string()));
    assert_eq!(
        urls,
        Ok(vec!["https://h/x.png".to_string(), "https://h/y.png".to_string()])
    );
}

#[test]
fn list_images_fails_with_the_raw_text_on_invalid_json() {
    let body = "<html>502 Bad Gateway</html>";
    let failure = list_images(ListReply::Body(body.to_string())).unwrap_err();
    assert_eq!(
        failure,
        ClientError::Parse {
            detail: "expected value at line 1 column 1".to_string(),
            raw: body.to_string(),
        }
    );
    assert_eq!(
        failure.message(),
        "JSON parse error: expected value at line 1 column 1 for text: <html>502 Bad Gateway</html>"
    );
}

#[test]
fn list_images_accepts_an_empty_list() {
    let body = "{\"success\":false,\"message\":\"\",\"status\":-1,\"data\":[]}";
    assert_eq!(list_images(ListReply::Body(body.to_string())), Ok(vec![]));
}

#[test]
fn list_images_reports_a_request_that_was_not_sent() {
    let failure = list_images(ListReply::SendFailed("connection refused".to_string()));
    assert_eq!(
        failure,
        Err(ClientError::Network("Request error: connection refused".to_string()))
    );
}

#[test]
fn list_images_reports_a_body_that_was_not_read() {
    let failure = list_images(ListReply::ReadFailed("timed out".to_string()));
    assert_eq!(
        failure,
        Err(ClientError::Network("Failed to get response text: timed out".to_string()))
    );
}

#[test]
fn read_image_list_passes_over_other_members() {
    let body = "{\"extra\":[1,2],\"data\":[\"u\"],\"status\":0,\"message\":\"m\",\"success\":true,\"more\":null}";
    assert_eq!(read_image_list(body), Ok(vec!["u".to_string()]));
}

#[test]
fn read_image_list_wants_every_member() {
    for body in [
        "{\"message\":\"ok\",\"status\":200,\"data\":[]}",
        "{\"success\":true,\"status\":200,\"data\":[]}",
        "{\"success\":true,\"message\":\"ok\",\"data\":[]}",
        "{\"success\":true,\"message\":\"ok\",\"status\":200}",
        "{}",
    ] {
        assert_eq!(read_image_list(body), Err(shape_fault(body)));
    }
}

#[test]
fn read_image_list_wants_each_member_of_its_type() {
    for body in [
        "{\"success\":1,\"message\":\"ok\",\"status\":200,\"data\":[]}",
        "{\"success\":true,\"message\":null,\"status\":200,\"data\":[]}",
        "{\"success\":true,\"message\":\"ok\",\"status\":\"200\",\"data\":[]}",
        "{\"success\":true,\"message\":\"ok\",\"status\":200.0,\"data\":[]}",
        "{\"success\":true,\"message\":\"ok\",\"status\":200,\"data\":\"u\"}",
        "{\"success\":true,\"message\":\"ok\",\"status\":200,\"data\":null}",
        "{\"success\":true,\"message\":\"ok\",\"status\":200,\"data\":[\"u\",1]}",
        "{\"success\":true,\"message\":\"ok\",\"status\":200,\"data\":[[\"u\"]]}",
    ] {
        assert_eq!(read_image_list(body), Err(shape_fault(body)));
    }
}

#[test]
fn read_image_list_wants_a_status_of_32_bits() {
    let most = "{\"success\":true,\"message\":\"\",\"status\":2147483647,\"data\":[\"u\"]}";
    assert_eq!(read_image_list(most), Ok(vec!["u".to_string()]));
    let least = "{\"success\":true,\"message\":\"\",\"status\":-2147483648,\"data\":[\"u\"]}";
    assert_eq!(read_image_list(least), Ok(vec!["u".to_string()]));
    let over = "{\"success\":true,\"message\":\"\",\"status\":2147483648,\"data\":[\"u\"]}";
    assert_eq!(read_image_list(over), Err(shape_fault(over)));
    let under = "{\"success\":true,\"message\":\"\",\"status\":-2147483649,\"data\":[\"u\"]}";
    assert_eq!(read_image_list(under), Err(shape_fault(under)));
}

#[test]
fn read_image_list_wants_an_object() {
    for body in ["[true,\"ok\",200,[\"u\"]]", "null", "\"data\"", "7"] {
        assert_eq!(read_image_list(body), Err(shape_fault(body)));
    }
}

#[test]
fn read_image_list_takes_the_last_of_a_member_sent_twice() {
    let body = "{\"data\":[\"a\"],\"success\":true,\"message\":\"\",\"status\":1,\"data\":[\"b\"]}";
    assert_eq!(read_image_list(body), Ok(vec!["b".to_string()]));
}

#[test]
fn shape_failure_message_holds_the_raw_text() {
    let body = "{\"data\":[]}";
    let failure = read_image_list(body).unwrap_err();
    assert_eq!(
        failure.message(),
        "JSON parse error: the document is not an image list response for text: {\"data\":[]}"
    );
}

#[test]
fn image_list_from_a_reading_that_failed() {
    let outcome = image_list_from(Err("boom".to_string()), "raw text");
    assert_eq!(
        outcome,
        Err(ClientError::Parse { detail: "boom".to_string(), raw: "raw text".to_string() })
    );
}

#[test]
fn image_list_from_a_document() {
    let doc = Json::Record(vec![
        ("success".to_string(), Json::Bool(true)),
        ("message".to_string(), Json::Text("ok".to_string())),
        ("status".to_string(), Json::Number(Some(200))),
        (
            "data".to_string(),
            Json::List(vec![Json::Text("a".to_string()), Json::Text("b".to_string())]),
        ),
    ]);
    assert_eq!(
        image_list_from(Ok(doc), "ignored"),
        Ok(vec!["a".to_string(), "b".to_string()])
    );
    assert_eq!(image_list_from(Ok(Json::Null), "null"), Err(shape_fault("null")));
}

#[test]
fn response_from_json_keeps_every_member() {
    let doc = Json::parse(
        "{\"success\":true,\"message\":\"ok\",\"status\":200,\"data\":[\"https://h/x.png\"]}",
    )
    .unwrap();
    assert_eq!(
        ImageListResponse::from_json(&doc),
        Some(ImageListResponse {
            success: true,
            message: "ok".to_string(),
            status: 200,
            data: vec!["https://h/x.png".to_string()],
        })
    );
    assert_eq!(ImageListResponse::from_json(&Json::List(vec![])), None);
    let untyped = Json::Record(vec![
        ("success".to_string(), Json::Bool(true)),
        ("message".to_string(), Json::Text("ok".to_string())),
        ("status".to_string(), Json::Number(None)),
        ("data".to_string(), Json::List(vec![])),
    ]);
    assert_eq!(ImageListResponse::from_json(&untyped), None);
}

#[test]
fn request_body_is_one_member_num() {
    assert_eq!(ImageListRequest { count: 5 }.body(), "{\"num\":5}");
    assert_eq!(ImageListRequest { count: 0 }.body(), "{\"num\":0}");
    assert_eq!(ImageListRequest { count: 10 }.body(), "{\"num\":10}");
    assert_eq!(ImageListRequest { count: -12 }.body(), "{\"num\":-12}");
    assert_eq!(ImageListRequest { count: i32::MAX }.body(), "{\"num\":2147483647}");
    assert_eq!(ImageListRequest { count: i32::MIN }.body(), "{\"num\":-2147483648}");
}

#[test]
fn request_body_is_json_that_holds_the_count() {
    for count in [0, 1, 9, 10, 99, 100, 12345, -1, -10, i32::MAX, i32::MIN] {
        let body = ImageListRequest { count }.body();
        let doc = Json::parse(&body).unwrap();
        assert_eq!(doc, Json::Record(vec![("num".to_string(), Json::Number(Some(count as i64)))]));
        let theirs = serde_json::Value::Object(
            [("num".to_string(), serde_json::Value::from(count))].into_iter().collect(),
        );
        assert_eq!(body, theirs.to_string());
    }
}

#[test]
fn endpoint_is_the_backend_address() {
    assert_eq!(
        IMAGE_LIST_ENDPOINT,
        "https://backend.nebularfantasy.com:9001/api/backend/getSmallGameTemplateImg"
    );
}
