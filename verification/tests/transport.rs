use pomodoro_notifier::transport::{
    delete_outcome, delete_request, is_success, send_request, TransportError, ACCEPT_HEADER,
    ACCEPT_JSON, BODY_FIELD, MESSAGES_PATH, ROOMS_URL, SELF_UNREAD, SELF_UNREAD_FIELD, TOKEN_HEADER,
};

fn pair(name: &str, value: &str) -> (String, String) {
    (name.to_string(), value.to_string())
}

#[test]
fn the_names_of_the_protocol() {
    assert_eq!(ROOMS_URL, "https://api.chatwork.com/v2/rooms/");
    assert_eq!(MESSAGES_PATH, "/messages");
    assert_eq!(TOKEN_HEADER, "X-ChatWorkToken");
    assert_eq!(ACCEPT_HEADER, "Accept");
    assert_eq!(ACCEPT_JSON, "application/json");
    assert_eq!(BODY_FIELD, "body");
    assert_eq!(SELF_UNREAD_FIELD, "self_unread");
    assert_eq!(SELF_UNREAD, "1");
}

#[test]
fn a_message_is_posted_to_the_messages_of_the_room() {
    let request = send_request("123456", "secret", "[toall]\nWorking time! ~10:25");
    assert_eq!(request.url, "https://api.chatwork.com/v2/rooms/123456/messages");
    assert_eq!(
        request.headers,
        vec![pair("X-ChatWorkToken", "secret"), pair("Accept", "application/json")]
    );
    assert_eq!(
        request.form,
        vec![pair("body", "[toall]\nWorking time! ~10:25"), pair("self_unread", "1")]
    );
}

#[test]
fn a_message_is_deleted_under_its_identifier() {
    let request = delete_request("123456", "secret", "1866221360398467072");
    assert_eq!(
        request.url,
        "https://api.chatwork.com/v2/rooms/123456/messages/1866221360398467072"
    );
    assert_eq!(
        request.headers,
        vec![pair("X-ChatWorkToken", "secret"), pair("Accept", "application/json")]
    );
}

#[test]
fn the_parts_of_an_address_are_taken_as_they_are() {
    assert_eq!(send_request("", "", "").url, "https://api.chatwork.com/v2/rooms//messages");
    assert_eq!(delete_request("a/b", "t", "c d").url, "https://api.chatwork.com/v2/rooms/a/b/messages/c d");
}

#[test]
fn a_status_in_the_two_hundreds_is_success() {
    for status in [200_u16, 201, 204, 250, 299] {
        assert!(is_success(status));
        assert!(delete_outcome(status).is_ok());
    }
}

#[test]
fn any_other_status_is_the_error() {
    for status in [0_u16, 100, 199, 300, 301, 400, 401, 404, 429, 500, 503, 999, u16::MAX] {
        assert!(!is_success(status));
        match delete_outcome(status) {
            Err(TransportError::Status(reported)) => assert_eq!(reported, status),
            other => panic!("{:?}", other),
        }
    }
}

#[test]
fn success_is_what_the_http_client_calls_success() {
    for status in 100_u16..1000 {
        let code = reqwest::StatusCode::from_u16(status).unwrap();
        assert_eq!(is_success(status), code.is_success());
    }
}
