use mail_cli::errors::MailError;
use mail_cli::google::{
    GoogleOAuthParams, GoogleOAuthTokenRefreshResponse, GoogleOAuthTokenRequestResponse,
    auth_root_url, imap_domain, imap_port, interpret_token_refresh_response,
    interpret_token_request_response,
};

fn params() -> GoogleOAuthParams {
    GoogleOAuthParams::new(String::from("the-id"), String::from("the-secret"))
}

#[test]
fn fixed_endpoints() {
    assert_eq!(auth_root_url(), "https://oauth2.googleapis.com/token");
    assert_eq!(imap_domain(), "imap.gmail.com");
    assert_eq!(imap_port(), 993);
}

#[test]
fn form_request_params_are_exact() {
    let p = params();
    let form = p.to_form_request_params("the-code");
    assert_eq!(
        form,
        [
            ("grant_type", "authorization_code"),
            ("redirect_uri", "urn:ietf:wg:oauth:2.0:oob"),
            ("client_id", "the-id"),
            ("client_secret", "the-secret"),
            ("code", "the-code"),
        ]
    );
}

#[test]
fn form_refresh_params_are_exact() {
    let p = params();
    let form = p.to_form_refresh_params("the-refresh");
    assert_eq!(
        form,
        [
            ("grant_type", "refresh_token"),
            ("client_id", "the-id"),
            ("client_secret", "the-secret"),
            ("refresh_token", "the-refresh"),
        ]
    );
}

#[test]
fn token_request_url_is_exact() {
    let p = params();
    assert_eq!(
        p.get_token_request_url(),
        "https://accounts.google.com/o/oauth2/v2/auth?access_type=offline&client_id=the-id&redirect_uri=urn:ietf:wg:oauth:2.0:oob&response_type=code&scope=https://mail.google.com"
    );
}

#[test]
fn exchange_succeeds_only_on_200_with_body() {
    let body = GoogleOAuthTokenRequestResponse {
        access_token: String::from("a"),
        refresh_token: String::from("r"),
    };
    let ok = interpret_token_request_response(Some(200), Some(body.clone())).unwrap();
    assert_eq!(ok.access_token, "a");
    assert_eq!(ok.refresh_token, "r");

    let err = interpret_token_request_response(Some(401), Some(body.clone())).unwrap_err();
    assert_eq!(err, MailError::AuthExchangeFailed(Some(401)));

    let err = interpret_token_request_response(Some(200), None).unwrap_err();
    assert_eq!(err, MailError::AuthExchangeFailed(Some(200)));

    let err = interpret_token_request_response(None, None).unwrap_err();
    assert_eq!(err, MailError::AuthExchangeFailed(None));
}

#[test]
fn refresh_succeeds_only_on_200_with_body() {
    let body = GoogleOAuthTokenRefreshResponse {
        access_token: String::from("a2"),
    };
    let ok = interpret_token_refresh_response(Some(200), Some(body.clone())).unwrap();
    assert_eq!(ok.access_token, "a2");

    let err = interpret_token_refresh_response(Some(500), Some(body)).unwrap_err();
    assert_eq!(err, MailError::TokenRefreshFailed(Some(500)));

    let err = interpret_token_refresh_response(None, None).unwrap_err();
    assert_eq!(err, MailError::TokenRefreshFailed(None));
}
