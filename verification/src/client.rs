//! Plain descriptions of what is sent to and received from the remote
//! service.

use vstd::prelude::*;
use vstd::string::*;

use crate::config::AuthCredentials;

verus! {

/// The request methods the service is called with.
#[derive(Clone, Copy, Debug, PartialEq, Eq, Structural)]
pub enum Method {
    Post,
    Patch,
    Put,
    Get,
}

/// The name of a method as it is written in a request.
pub open spec fn method_name(method: Method) -> Seq<char> {
    match method {
        Method::Post => "POST"@,
        Method::Patch => "PATCH"@,
        Method::Put => "PUT"@,
        Method::Get => "GET"@,
    }
}

impl Method {
    /// The name of the method as it is written in a request.
    pub fn as_str(&self) -> (name: &'static str)
        ensures
            name@ == method_name(*self),
    {
        match self {
            Method::Post => "POST",
            Method::Patch => "PATCH",
            Method::Put => "PUT",
            Method::Get => "GET",
        }
    }
}

/// One header of a request: its name and its value.
pub type Header = (String, String);

/// A header as plain text.
pub open spec fn header_view(header: Header) -> (Seq<char>, Seq<char>) {
    (header.0@, header.1@)
}

/// The header that announces a JSON body.
pub open spec fn json_content_type() -> (Seq<char>, Seq<char>) {
    ("content-type"@, "application/json"@)
}

/// The header that carries the credential `token`.
pub open spec fn authorization(token: Seq<char>) -> (Seq<char>, Seq<char>) {
    ("authorization"@, token)
}

fn json_content_type_header() -> (header: Header)
    ensures
        header_view(header) == json_content_type(),
{
    (String::from_str("content-type"), String::from_str("application/json"))
}

/// The request that asks the service for a credential.
#[derive(Clone, Debug)]
pub struct AuthRequest {
    url: String,
    method: Method,
    username: String,
    password: String,
}

/// What an [`AuthRequest`] holds.
pub struct AuthRequestView {
    pub url: Seq<char>,
    pub method: Method,
    pub username: Seq<char>,
    pub password: Seq<char>,
}

impl View for AuthRequest {
    type V = AuthRequestView;

    closed spec fn view(&self) -> AuthRequestView {
        AuthRequestView {
            url: self.url@,
            method: self.method,
            username: self.username@,
            password: self.password@,
        }
    }
}

impl AuthRequest {
    /// The request for a credential at `url` for `credentials`, sent with
    /// `method`, or with POST when none is given.
    pub fn create(url: String, credentials: AuthCredentials, method: Option<Method>) -> (request:
        Self)
        ensures
            request@ == (AuthRequestView {
                url: url@,
                method: match method {
                    Some(given) => given,
                    None => Method::Post,
                },
                username: credentials.auth_user@,
                password: credentials.auth_password@,
            }),
    {
        AuthRequest {
            url,
            method: match method {
                Some(given) => given,
                None => Method::Post,
            },
            username: credentials.auth_user,
            password: credentials.auth_password,
        }
    }

    /// The address the request goes to.
    pub fn url(&self) -> (url: &String)
        ensures
            url@ == self@.url,
    {
        &self.url
    }

    /// The method the request is sent with.
    pub fn method(&self) -> (method: Method)
        ensures
            method == self@.method,
    {
        self.method
    }

    /// The user the credential is asked for.
    pub fn username(&self) -> (username: &String)
        ensures
            username@ == self@.username,
    {
        &self.username
    }

    /// The password of that user.
    pub fn password(&self) -> (password: &String)
        ensures
            password@ == self@.password,
    {
        &self.password
    }

    /// The headers the request is sent with: the one that announces a JSON
    /// body.
    pub fn headers(&self) -> (headers: Vec<Header>)
        ensures
            headers@.map_values(|h: Header| header_view(h)) == seq![json_content_type()],
    {
        let mut headers: Vec<Header> = Vec::new();
        headers.push(json_content_type_header());
        headers
    }
}

/// One request that updates a record.
#[derive(Clone, Debug)]
pub struct ApiRequest {
    url: String,
    body: String,
    method: Method,
    auth_token: String,
}

/// What an [`ApiRequest`] holds.
pub struct ApiRequestView {
    pub url: Seq<char>,
    pub body: Seq<char>,
    pub method: Method,
    pub auth_token: Seq<char>,
}

impl View for ApiRequest {
    type V = ApiRequestView;

    closed spec fn view(&self) -> ApiRequestView {
        ApiRequestView {
            url: self.url@,
            body: self.body@,
            method: self.method,
            auth_token: self.auth_token@,
        }
    }
}

impl ApiRequest {
    /// The request to `url` with `body`, authorised by `auth_token` and sent
    /// with `method`, or with PATCH when none is given.
    pub fn create(
        url: String,
        body: String,
        auth_token: String,
        method: Option<Method>,
    ) -> (request: Self)
        ensures
            request@ == (ApiRequestView {
                url: url@,
                body: body@,
                method: match method {
                    Some(given) => given,
                    None => Method::Patch,
                },
                auth_token: auth_token@,
            }),
    {
        ApiRequest {
            url,
            body,
            auth_token,
            method: match method {
                Some(given) => given,
                None => Method::Patch,
            },
        }
    }

    /// The address the request goes to.
    pub fn url(&self) -> (url: &String)
        ensures
            url@ == self@.url,
    {
        &self.url
    }

    /// The body of the request.
    pub fn body(&self) -> (body: &String)
        ensures
            body@ == self@.body,
    {
        &self.body
    }

    /// The method the request is sent with.
    pub fn method(&self) -> (method: Method)
        ensures
            method == self@.method,
    {
        self.method
    }

    /// The credential that authorises the request.
    pub fn auth_token(&self) -> (token: &String)
        ensures
            token@ == self@.auth_token,
    {
        &self.auth_token
    }

    /// The headers the request is sent with: the one that announces a JSON
    /// body, then the one that carries the credential.
    pub fn headers(&self) -> (headers: Vec<Header>)
        ensures
            headers@.map_values(|h: Header| header_view(h)) == seq![
                json_content_type(),
                authorization(self@.auth_token),
            ],
    {
        let mut headers: Vec<Header> = Vec::new();
        headers.push(json_content_type_header());
        headers.push((String::from_str("authorization"), self.auth_token.clone()));
        headers
    }
}

/// What the service answered to one request.
#[derive(Clone, Debug, PartialEq, Eq)]
pub struct ApiResponse {
    pub status: u16,
    pub body: String,
}

/// What an [`ApiResponse`] holds.
pub struct ApiResponseView {
    pub status: u16,
    pub body: Seq<char>,
}

impl View for ApiResponse {
    type V = ApiResponseView;

    open spec fn view(&self) -> ApiResponseView {
        ApiResponseView { status: self.status, body: self.body@ }
    }
}

/// The end of one request: the response of the service, or the description
/// of the fault that kept a response from arriving.
pub type CallResult = Result<ApiResponse, String>;

/// The end of one request as plain values.
pub open spec fn call_result_view(result: CallResult) -> Result<ApiResponseView, Seq<char>> {
    match result {
        Ok(response) => Ok(response@),
        Err(fault) => Err(fault@),
    }
}

/// The credential the service granted.
#[derive(Clone, Debug)]
pub struct AuthResponse {
    access_token: String,
    token_type: String,
}

/// What an [`AuthResponse`] holds.
pub struct AuthResponseView {
    pub access_token: Seq<char>,
    pub token_type: Seq<char>,
}

/// The credential as it is sent with a request: the type of the token, a
/// space, the token.
pub open spec fn token_text(response: AuthResponseView) -> Seq<char> {
    response.token_type + " "@ + response.access_token
}

impl View for AuthResponse {
    type V = AuthResponseView;

    closed spec fn view(&self) -> AuthResponseView {
        AuthResponseView { access_token: self.access_token@, token_type: self.token_type@ }
    }
}

impl AuthResponse {
    /// The credential made of `access_token` and its `token_type`.
    pub fn new(access_token: String, token_type: String) -> (response: Self)
        ensures
            response@ == (AuthResponseView {
                access_token: access_token@,
                token_type: token_type@,
            }),
    {
        AuthResponse { access_token, token_type }
    }

    /// The credential as it is sent with a request.
    pub fn token(&self) -> (token: String)
        ensures
            token@ == token_text(self@),
    {
        let mut token = self.token_type.clone();
        token.append(" ");
        token.append(self.access_token.as_str());
        token
    }
}

/// The status with which the service grants a credential.
pub const AUTH_GRANTED_STATUS: u16 = 200;

/// What one authentication call came to: the body that holds the credential,
/// or the reason why none was granted.
pub open spec fn authorized(reply: Result<ApiResponse, String>) -> Result<String, String> {
    match reply {
        Ok(response) => if response.status == AUTH_GRANTED_STATUS {
            Ok(response.body)
        } else {
            Err(response.body)
        },
        Err(fault) => Err(fault),
    }
}

/// Reads the end of one authentication call.
///
/// `reply` is the response of the service, or the description of the fault
/// that kept a response from arriving. Only a response with status 200
/// grants a credential: its body, which holds the credential, is returned as
/// `Ok`. The body of any other response, and the description of a fault, is
/// returned as `Err`.
pub fn authorize(reply: Result<ApiResponse, String>) -> (granted: Result<String, String>)
    ensures
        granted == authorized(reply),
{
    match reply {
        Ok(response) => {
            if response.status == AUTH_GRANTED_STATUS {
                Ok(response.body)
            } else {
                Err(response.body)
            }
        },
        Err(fault) => Err(fault),
    }
}

} // verus!
