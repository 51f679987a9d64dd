use houseflow::token::{DecodeError, InternalServerError, Request, Response, ResponseBody, ResponseError};

#[test]
fn status_codes() {
    assert_eq!(ResponseError::InternalError(InternalServerError(String::from("db down"))).status_code(), 500);
    assert_eq!(ResponseError::TokenError(DecodeError(String::from("expired"))).status_code(), 401);
    assert_eq!(ResponseError::TokenNotInStore.status_code(), 401);
}

#[test]
fn messages() {
    assert_eq!(
        ResponseError::InternalError(InternalServerError(String::from("db down"))).message(),
        "internal error: db down"
    );
    assert_eq!(ResponseError::TokenError(DecodeError(String::from("expired"))).message(), "token error: expired");
    assert_eq!(ResponseError::TokenNotInStore.message(), "token not found in store");
}

#[test]
fn conversions() {
    let e: ResponseError = InternalServerError(String::from("x")).into();
    assert_eq!(e, ResponseError::InternalError(InternalServerError(String::from("x"))));
    let e: ResponseError = DecodeError(String::from("y")).into();
    assert_eq!(e, ResponseError::TokenError(DecodeError(String::from("y"))));
}

#[test]
fn response_carries_body_or_error() {
    let request = Request { refresh_token: String::from("token") };
    let ok: Response = Ok(ResponseBody { refresh_token: None, access_token: request.refresh_token.clone() });
    assert_eq!(ok.unwrap().access_token, "token");
    let err: Response = Err(ResponseError::TokenNotInStore);
    assert!(err.is_err());
}
