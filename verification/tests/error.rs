use captcha_gate::error::Error;

#[test]
fn unauthorized_is_401() {
    assert_eq!(Error::Unauthorized.status(), 401);
    assert_eq!(Error::Unauthorized.client_message(), "Unauthorized");
}

#[test]
fn bad_request_is_400_and_tells_the_client_why() {
    let error = Error::BadRequest("too much".to_string());
    assert_eq!(error.status(), 400);
    assert_eq!(error.client_message(), "too much");
}

#[test]
fn not_found_is_404() {
    assert_eq!(Error::NotFound.status(), 404);
    assert_eq!(Error::NotFound.client_message(), "Not found");
}

#[test]
fn internal_server_is_500_and_keeps_its_detail_from_the_client() {
    let error = Error::InternalServer("smtp password rejected".to_string());
    assert_eq!(error.status(), 500);
    assert_eq!(error.client_message(), "Internal server error");
}

#[test]
fn response_parts_are_status_and_message() {
    assert_eq!(Error::Unauthorized.response_parts(), (401, "Unauthorized".to_string()));
    assert_eq!(
        Error::BadRequest("no".to_string()).response_parts(),
        (400, "no".to_string())
    );
    assert_eq!(Error::NotFound.response_parts(), (404, "Not found".to_string()));
    assert_eq!(
        Error::InternalServer("disk".to_string()).response_parts(),
        (500, "Internal server error".to_string())
    );
}
