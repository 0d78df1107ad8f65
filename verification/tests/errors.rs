use image_cache::error::ClientError;

#[test]
fn network_message_is_the_detail() {
    assert_eq!(ClientError::Network("dns failure".to_string()).message(), "dns failure");
    assert_eq!(ClientError::Network(String::new()).message(), "");
}

#[test]
fn io_message_is_the_detail() {
    assert_eq!(ClientError::Io("disk full".to_string()).message(), "disk full");
}

#[test]
fn parse_message_holds_detail_and_raw_text() {
    let failure = ClientError::Parse { detail: "d".to_string(), raw: "r".to_string() };
    assert_eq!(failure.message(), "JSON parse error: d for text: r");
    let empty = ClientError::Parse { detail: String::new(), raw: String::new() };
    assert_eq!(empty.message(), "JSON parse error:  for text: ");
}

#[test]
fn invalid_url_message_holds_the_address() {
    assert_eq!(
        ClientError::InvalidUrl("https://h/".to_string()).message(),
        "URL has no file name: https://h/"
    );
}
