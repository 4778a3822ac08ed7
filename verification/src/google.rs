use vstd::prelude::*;
use vstd::string::StringExecFns;
use crate::errors::MailError;

verus! {

/// The fixed token endpoint of the authorization server.
pub fn auth_root_url() -> (r: &'static str)
    ensures
        r@ == "https://oauth2.googleapis.com/token"@,
{
    "https://oauth2.googleapis.com/token"
}

/// The provider's mail host.
pub fn imap_domain() -> (r: &'static str)
    ensures
        r@ == "imap.gmail.com"@,
{
    "imap.gmail.com"
}

/// The provider's mail port.
pub fn imap_port() -> (r: u16)
    ensures
        r == 993,
{
    993
}

/// What a successful authorization-code exchange returns: a fresh token pair.
#[derive(Debug, Clone, PartialEq, Eq)]
pub struct GoogleOAuthTokenRequestResponse {
    pub access_token: String,
    pub refresh_token: String,
}

/// What a successful refresh returns: only a new access token; the refresh
/// token is not rotated.
#[derive(Debug, Clone, PartialEq, Eq)]
pub struct GoogleOAuthTokenRefreshResponse {
    pub access_token: String,
}

/// The client configuration for the token endpoint, passed in explicitly by
/// whoever sourced it: client credentials, the fixed out-of-band redirect and
/// the full-mail scope.
#[derive(Debug, Clone)]
pub struct GoogleOAuthParams {
    client_id: String,
    client_secret: String,
    redirect_url: String,
    scopes: String,
}

/// The user-facing consent URL for the authorization-code flow.
pub open spec fn spec_token_request_url(id: Seq<char>, uri: Seq<char>, scopes: Seq<char>) -> Seq<
    char,
> {
    "https://accounts.google.com/o/oauth2/v2/auth?access_type=offline&client_id="@ + id
        + "&redirect_uri="@ + uri + "&response_type=code&scope="@ + scopes
}

impl GoogleOAuthParams {
    pub closed spec fn spec_client_id(&self) -> Seq<char> {
        self.client_id@
    }

    pub closed spec fn spec_client_secret(&self) -> Seq<char> {
        self.client_secret@
    }

    pub closed spec fn spec_redirect_url(&self) -> Seq<char> {
        self.redirect_url@
    }

    pub closed spec fn spec_scopes(&self) -> Seq<char> {
        self.scopes@
    }

    pub fn new(client_id: String, client_secret: String) -> (r: Self)
        ensures
            r.spec_client_id() == client_id@,
            r.spec_client_secret() == client_secret@,
            r.spec_redirect_url() == "urn:ietf:wg:oauth:2.0:oob"@,
            r.spec_scopes() == "https://mail.google.com"@,
    {
        GoogleOAuthParams {
            client_id,
            client_secret,
            redirect_url: String::from_str("urn:ietf:wg:oauth:2.0:oob"),
            scopes: String::from_str("https://mail.google.com"),
        }
    }

    /// The exact parameter set of the authorization-code exchange; nothing
    /// more, nothing less, or the endpoint rejects the request.
    pub fn to_form_request_params<'a>(&'a self, auth_code: &'a str) -> (r: [(&'a str, &'a str); 5])
        ensures
            r@[0].0@ == "grant_type"@ && r@[0].1@ == "authorization_code"@,
            r@[1].0@ == "redirect_uri"@ && r@[1].1@ == self.spec_redirect_url(),
            r@[2].0@ == "client_id"@ && r@[2].1@ == self.spec_client_id(),
            r@[3].0@ == "client_secret"@ && r@[3].1@ == self.spec_client_secret(),
            r@[4].0@ == "code"@ && r@[4].1@ == auth_code@,
    {
        [
            ("grant_type", "authorization_code"),
            ("redirect_uri", self.redirect_url.as_str()),
            ("client_id", self.client_id.as_str()),
            ("client_secret", self.client_secret.as_str()),
            ("code", auth_code),
        ]
    }

    /// The exact parameter set of the refresh exchange.
    pub fn to_form_refresh_params<'a>(&'a self, refresh_token: &'a str) -> (r: [(&'a str, &'a str);
        4])
        ensures
            r@[0].0@ == "grant_type"@ && r@[0].1@ == "refresh_token"@,
            r@[1].0@ == "client_id"@ && r@[1].1@ == self.spec_client_id(),
            r@[2].0@ == "client_secret"@ && r@[2].1@ == self.spec_client_secret(),
            r@[3].0@ == "refresh_token"@ && r@[3].1@ == refresh_token@,
    {
        [
            ("grant_type", "refresh_token"),
            ("client_id", self.client_id.as_str()),
            ("client_secret", self.client_secret.as_str()),
            ("refresh_token", refresh_token),
        ]
    }

    /// The consent URL the user must visit to obtain an authorization code.
    pub fn get_token_request_url(&self) -> (r: String)
        ensures
            r@ == spec_token_request_url(
                self.spec_client_id(),
                self.spec_redirect_url(),
                self.spec_scopes(),
            ),
    {
        let mut out = String::from_str(
            "https://accounts.google.com/o/oauth2/v2/auth?access_type=offline&client_id=",
        );
        out.append(self.client_id.as_str());
        out.append("&redirect_uri=");
        out.append(self.redirect_url.as_str());
        out.append("&response_type=code&scope=");
        out.append(self.scopes.as_str());
        proof {
            assert(out@ =~= spec_token_request_url(
                self.spec_client_id(),
                self.spec_redirect_url(),
                self.spec_scopes(),
            ));
        }
        out
    }
}

/// Decides the outcome of the authorization-code exchange. Success is owed
/// exactly when the server answered HTTP 200 with a decodable body carrying
/// both tokens; any other status, a missing response or an undecodable body
/// fails with the status that was available.
pub fn interpret_token_request_response(
    status: Option<u16>,
    body: Option<GoogleOAuthTokenRequestResponse>,
) -> (r: Result<GoogleOAuthTokenRequestResponse, MailError>)
    ensures
        match body {
            Some(b) => if status == Some(200u16) {
                r == Ok::<GoogleOAuthTokenRequestResponse, MailError>(b)
            } else {
                r == Err::<GoogleOAuthTokenRequestResponse, MailError>(
                    MailError::AuthExchangeFailed(status),
                )
            },
            None => r == Err::<GoogleOAuthTokenRequestResponse, MailError>(
                MailError::AuthExchangeFailed(status),
            ),
        },
{
    match body {
        Some(b) => {
            match status {
                Some(s) => {
                    if s == 200 {
                        Ok(b)
                    } else {
                        Err(MailError::AuthExchangeFailed(Some(s)))
                    }
                },
                None => Err(MailError::AuthExchangeFailed(None)),
            }
        },
        None => Err(MailError::AuthExchangeFailed(status)),
    }
}

/// Decides the outcome of the refresh exchange, under the same contract as
/// the code exchange but annotated as a refresh failure.
pub fn interpret_token_refresh_response(
    status: Option<u16>,
    body: Option<GoogleOAuthTokenRefreshResponse>,
) -> (r: Result<GoogleOAuthTokenRefreshResponse, MailError>)
    ensures
        match body {
            Some(b) => if status == Some(200u16) {
                r == Ok::<GoogleOAuthTokenRefreshResponse, MailError>(b)
            } else {
                r == Err::<GoogleOAuthTokenRefreshResponse, MailError>(
                    MailError::TokenRefreshFailed(status),
                )
            },
            None => r == Err::<GoogleOAuthTokenRefreshResponse, MailError>(
                MailError::TokenRefreshFailed(status),
            ),
        },
{
    match body {
        Some(b) => {
            match status {
                Some(s) => {
                    if s == 200 {
                        Ok(b)
                    } else {
                        Err(MailError::TokenRefreshFailed(Some(s)))
                    }
                },
                None => Err(MailError::TokenRefreshFailed(None)),
            }
        },
        None => Err(MailError::TokenRefreshFailed(status)),
    }
}

} // verus!
