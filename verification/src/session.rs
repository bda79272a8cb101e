//! A session with the publishing service: the cookie, the anti-forgery
//! token, the requests that are sent and what the answers mean.

use base64::Engine;
use vstd::prelude::*;
use vstd::string::*;
use crate::record::ItemError;
use crate::request_types::{
    form_urlencoded, upload_animation_url, upload_pairs, asset_url, Animation,
    ASSET_DELIVERY_URL, UPLOAD_ANIMATION_URL,
};
use crate::asset_id::decimal;
use crate::script::same_text;

verus! {

/// The name of the header that carries the anti-forgery token.
pub const XCSRF_HEADER: &'static str = "x-csrf-token";

/// The name of the header that carries the cookie.
pub const COOKIE_HEADER: &'static str = "cookie";

/// The name of the header that names the client.
pub const USER_AGENT_HEADER: &'static str = "user-agent";

/// The client name with which animations are published.
pub const USER_AGENT: &'static str = "Roblox/WinInet";

/// What the cookie text starts with, before the credential.
pub const COOKIE_PREFIX: &'static str = ".ROBLOSECURITY=";

/// The address at which the anti-forgery token is renewed.
pub const LOGIN_URL: &'static str = "https://auth.roblox.com/v2/login";

/// The message with which the service asks for a challenge.
pub const CHALLENGE_MESSAGE: &'static str = "Challenge is required to authorize the request";

/// Why a request to the service failed.
#[derive(Clone, Debug, PartialEq, Eq)]
pub enum RobloxError {
    /// No cookie is set although the request needs one.
    RoblosecurityNotSet,
    /// The service reported an error code that is not known.
    UnknownRobloxErrorCode { code: u16, message: String },
    /// The anti-forgery token was refused; the service sent this new one.
    InvalidXcsrf(String),
    /// The anti-forgery token was refused and no new one was sent.
    XcsrfNotReturned,
    /// The service refused the request in a form that is not known.
    UnknownStatus403Format,
    /// The request could not be sent or the answer not received.
    ReqwestError,
    /// Too many requests were sent.
    TooManyRequests,
    /// The service reported an internal error.
    InternalServerError,
    /// The animation has no payload to publish.
    MissingAnimationData,
}

/// A failure as a mathematical value: texts in place of strings.
pub enum Failure {
    RoblosecurityNotSet,
    UnknownRobloxErrorCode { code: u16, message: Seq<char> },
    InvalidXcsrf(Seq<char>),
    XcsrfNotReturned,
    UnknownStatus403Format,
    ReqwestError,
    TooManyRequests,
    InternalServerError,
    MissingAnimationData,
}

impl View for RobloxError {
    type V = Failure;

    open spec fn view(&self) -> Failure {
        match *self {
            RobloxError::RoblosecurityNotSet => Failure::RoblosecurityNotSet,
            RobloxError::UnknownRobloxErrorCode { code, message } => Failure::UnknownRobloxErrorCode {
                code,
                message: message@,
            },
            RobloxError::InvalidXcsrf(token) => Failure::InvalidXcsrf(token@),
            RobloxError::XcsrfNotReturned => Failure::XcsrfNotReturned,
            RobloxError::UnknownStatus403Format => Failure::UnknownStatus403Format,
            RobloxError::ReqwestError => Failure::ReqwestError,
            RobloxError::TooManyRequests => Failure::TooManyRequests,
            RobloxError::InternalServerError => Failure::InternalServerError,
            RobloxError::MissingAnimationData => Failure::MissingAnimationData,
        }
    }
}

/// A request to send: the method, the address, the headers in order and
/// the body.
#[derive(Clone, Debug)]
pub struct HttpRequest {
    pub post: bool,
    pub url: String,
    pub headers: Vec<(String, String)>,
    pub body: Option<String>,
}

/// An answer of the service, as far as its meaning depends on it: the
/// status code, the anti-forgery token that it carries in its header, and
/// the errors in its body if the body is a list of errors.
#[derive(Clone, Debug)]
pub struct Response {
    pub status: u16,
    pub xcsrf: Option<String>,
    pub errors: Option<Vec<ItemError>>,
}

/// The base-64 text of a payload, in the standard alphabet with padding.
pub uninterp spec fn base64_text(data: Seq<u8>) -> Seq<char>;

/// `base64::Engine::encode` of the engine `general_purpose::STANDARD`.
#[verifier::external_body]
fn base64_encode(data: &Vec<u8>) -> (text: String)
    ensures
        text@ == base64_text(data@),
{
    base64::engine::general_purpose::STANDARD.encode(data)
}

/// What a refused request means.
///
/// Where the body is a list of errors, its first error decides: code 0
/// means that the anti-forgery token was refused; any other error that is
/// not a request for a challenge is reported as it is; a request for a
/// challenge, or an empty list, is a refusal of unknown form. Where the
/// body is no list of errors, the token was refused. A refused token comes
/// with a new one in the header, or the refusal says that none was sent.
pub open spec fn unauth_meaning(response: Response) -> Failure {
    match response.errors {
        Some(errors) => if errors@.len() > 0 && errors@[0].code == 0 {
            token_refusal(response.xcsrf)
        } else if errors@.len() > 0 && errors@[0].message@ != CHALLENGE_MESSAGE@ {
            Failure::UnknownRobloxErrorCode {
                code: errors@[0].code,
                message: errors@[0].message@,
            }
        } else {
            Failure::UnknownStatus403Format
        },
        None => token_refusal(response.xcsrf),
    }
}

/// The refusal of the anti-forgery token: with the new token if one was
/// sent.
pub open spec fn token_refusal(xcsrf: Option<String>) -> Failure {
    match xcsrf {
        Some(token) => Failure::InvalidXcsrf(token@),
        None => Failure::XcsrfNotReturned,
    }
}

/// What the status of an answer means: success for 200, else the error.
pub open spec fn status_meaning(response: Response) -> Result<(), Failure> {
    if response.status == 200 {
        Ok(())
    } else if response.status == 400 || response.status == 403 {
        Err(unauth_meaning(response))
    } else if response.status == 429 {
        Err(Failure::TooManyRequests)
    } else if response.status == 500 {
        Err(Failure::InternalServerError)
    } else {
        Err(Failure::UnknownRobloxErrorCode { code: response.status, message: Seq::empty() })
    }
}

/// Whether the meaning of an answer with this status depends on the errors
/// in its body.
pub fn reads_errors(status: u16) -> (reads: bool)
    ensures
        reads == (status == 400 || status == 403),
{
    status == 400 || status == 403
}

fn refuse_token(xcsrf: Option<String>) -> (error: RobloxError)
    ensures
        error@ == token_refusal(xcsrf),
{
    match xcsrf {
        Some(token) => RobloxError::InvalidXcsrf(token),
        None => RobloxError::XcsrfNotReturned,
    }
}

/// Says what a refused request means.
pub fn process_unauth(response: Response) -> (error: RobloxError)
    ensures
        error@ == unauth_meaning(response),
{
    match response.errors {
        Some(errors) => {
            if errors.len() > 0 && errors[0].code == 0 {
                refuse_token(response.xcsrf)
            } else if errors.len() > 0 && !same_text(
                errors[0].message.as_str(),
                CHALLENGE_MESSAGE,
            ) {
                RobloxError::UnknownRobloxErrorCode {
                    code: errors[0].code,
                    message: errors[0].message.clone(),
                }
            } else {
                RobloxError::UnknownStatus403Format
            }
        },
        None => refuse_token(response.xcsrf),
    }
}

/// Says what the status of an answer means: the answer itself for status
/// 200, else the error.
pub fn handle_status(response: Response) -> (result: Result<Response, RobloxError>)
    ensures
        match result {
            Ok(r) => status_meaning(response) is Ok && r == response,
            Err(e) => status_meaning(response) == Err::<(), Failure>(e@),
        },
{
    let status_code: u16 = response.status;
    if status_code == 200 {
        Ok(response)
    } else if status_code == 400 || status_code == 403 {
        Err(process_unauth(response))
    } else if status_code == 429 {
        Err(RobloxError::TooManyRequests)
    } else if status_code == 500 {
        Err(RobloxError::InternalServerError)
    } else {
        Err(RobloxError::UnknownRobloxErrorCode { code: status_code, message: String::new() })
    }
}

/// Says what the result of sending a request means: a transport failure is
/// reported as such, an answer by its status.
pub fn validate_request_result(request_result: Option<Response>) -> (result: Result<
    Response,
    RobloxError,
>)
    ensures
        match request_result {
            Some(response) => match result {
                Ok(r) => status_meaning(response) is Ok && r == response,
                Err(e) => status_meaning(response) == Err::<(), Failure>(e@),
            },
            None => result == Err::<Response, RobloxError>(RobloxError::ReqwestError),
        },
{
    match request_result {
        Some(response) => handle_status(response),
        None => Err(RobloxError::ReqwestError),
    }
}

/// A session with the service.
#[derive(Debug)]
pub struct RobloxSession {
    /// The text of the cookie header, if a credential is set.
    pub cookie_string: Option<String>,
    /// The anti-forgery token; empty until the service sends one.
    pub xcsrf: String,
}

/// Collects what a session is built from.
#[derive(Clone, Debug)]
pub struct SessionBuilder {
    roblosecurity: Option<String>,
}

impl SessionBuilder {
    /// The credential that is set, if any.
    pub closed spec fn credential(&self) -> Option<Seq<char>> {
        match self.roblosecurity {
            Some(c) => Some(c@),
            None => None,
        }
    }

    /// A builder with nothing set.
    pub fn new() -> (builder: Self)
        ensures
            builder.credential() is None,
    {
        Self { roblosecurity: None }
    }

    /// Sets the credential.
    pub fn roblosecurity(self, roblosecurity: String) -> (builder: Self)
        ensures
            builder.credential() == Some(roblosecurity@),
    {
        Self { roblosecurity: Some(roblosecurity) }
    }

    /// Builds the session: the cookie text is the prefix followed by the
    /// credential, and the anti-forgery token is empty.
    pub fn build(self) -> (session: Result<RobloxSession, RobloxError>)
        ensures
            session is Ok,
            session->Ok_0.xcsrf@ == Seq::<char>::empty(),
            match session->Ok_0.cookie_string {
                Some(cookie) => self.credential() is Some && cookie@ == COOKIE_PREFIX@
                    + self.credential()->0,
                None => self.credential() is None,
            },
    {
        let cookie_string = match self.roblosecurity {
            Some(roblosecurity) => Some(
                RobloxSession::create_cookie_string_header(roblosecurity.as_str()),
            ),
            None => None,
        };
        Ok(RobloxSession { cookie_string, xcsrf: String::new() })
    }
}

/// The headers of a request of the session: the token first, then the
/// cookie if there is one.
pub open spec fn session_headers(session: RobloxSession) -> Seq<(Seq<char>, Seq<char>)> {
    let token = seq![(XCSRF_HEADER@, session.xcsrf@)];
    match session.cookie_string {
        Some(cookie) => token.push((COOKIE_HEADER@, cookie@)),
        None => token,
    }
}

/// The views of a list of headers.
pub open spec fn header_texts(headers: Seq<(String, String)>) -> Seq<(Seq<char>, Seq<char>)> {
    headers.map_values(|p: (String, String)| (p.0@, p.1@))
}

/// The text of an optional string.
pub open spec fn body_text(body: Option<String>) -> Option<Seq<char>> {
    match body {
        Some(text) => Some(text@),
        None => None,
    }
}

fn header(name: &str, value: &str) -> (h: (String, String))
    ensures
        h.0@ == name@,
        h.1@ == value@,
{
    (name.to_owned(), value.to_owned())
}

impl RobloxSession {
    /// The text of the cookie header for a credential.
    pub fn create_cookie_string_header(roblosecurity: &str) -> (cookie: String)
        ensures
            cookie@ == COOKIE_PREFIX@ + roblosecurity@,
    {
        let mut cookie: String = COOKIE_PREFIX.to_owned();
        cookie.append(roblosecurity);
        cookie
    }

    /// The anti-forgery token.
    pub fn read_xcsrf(&self) -> (token: String)
        ensures
            token == self.xcsrf,
    {
        self.xcsrf.clone()
    }

    /// The text of the cookie header. Fails exactly when no credential is
    /// set.
    pub fn read_cookie(&self) -> (cookie: Result<String, RobloxError>)
        ensures
            match cookie {
                Ok(text) => self.cookie_string == Some(text),
                Err(e) => self.cookie_string is None && e == RobloxError::RoblosecurityNotSet,
            },
    {
        match &self.cookie_string {
            Some(cookie) => Ok(cookie.clone()),
            None => Err(RobloxError::RoblosecurityNotSet),
        }
    }

    /// Replaces the anti-forgery token.
    pub fn set_xcsrf(&mut self, xcsrf: String)
        ensures
            final(self).xcsrf == xcsrf,
            final(self).cookie_string == old(self).cookie_string,
    {
        self.xcsrf = xcsrf;
    }

    /// Takes in the failure of the first attempt of a request. Where the
    /// anti-forgery token was refused and a new one was sent, the new token
    /// is kept and the request is to be sent once more; any other failure
    /// is final.
    pub fn retry_with_new_token(&mut self, error: RobloxError) -> (again: Result<(), RobloxError>)
        ensures
            final(self).cookie_string == old(self).cookie_string,
            match error {
                RobloxError::InvalidXcsrf(token) => again is Ok && final(self).xcsrf == token,
                _ => again == Err::<(), RobloxError>(error) && final(self).xcsrf == old(self).xcsrf,
            },
    {
        match error {
            RobloxError::InvalidXcsrf(token) => {
                self.set_xcsrf(token);
                Ok(())
            },
            other => Err(other),
        }
    }

    /// Takes in the result of the request that renews the anti-forgery
    /// token. A refusal that carries a new token is the renewal: the token
    /// is kept. Any other failure is reported.
    pub fn refresh_csrf(&mut self, result: Result<(), RobloxError>) -> (renewed: Result<
        (),
        RobloxError,
    >)
        ensures
            final(self).cookie_string == old(self).cookie_string,
            match result {
                Ok(_) => renewed is Ok && final(self).xcsrf == old(self).xcsrf,
                Err(RobloxError::InvalidXcsrf(token)) => renewed is Ok && final(self).xcsrf
                    == token,
                Err(e) => renewed == Err::<(), RobloxError>(e) && final(self).xcsrf == old(
                    self,
                ).xcsrf,
            },
    {
        match result {
            Ok(_) => Ok(()),
            Err(error) => self.retry_with_new_token(error),
        }
    }

    fn token_and_cookie(&self) -> (headers: Vec<(String, String)>)
        ensures
            header_texts(headers@) == session_headers(*self),
    {
        let mut headers: Vec<(String, String)> = Vec::new();
        headers.push(header(XCSRF_HEADER, self.xcsrf.as_str()));
        match &self.cookie_string {
            Some(cookie) => {
                headers.push(header(COOKIE_HEADER, cookie.as_str()));
            },
            None => {},
        }
        proof {
            assert(header_texts(headers@) =~= session_headers(*self));
        }
        headers
    }

    /// The request that renews the anti-forgery token.
    pub fn refresh_request(&self) -> (request: HttpRequest)
        ensures
            request.post,
            request.url@ == LOGIN_URL@,
            header_texts(request.headers@) == session_headers(*self),
            request.body is None,
    {
        HttpRequest {
            post: true,
            url: LOGIN_URL.to_owned(),
            headers: self.token_and_cookie(),
            body: None,
        }
    }

    /// The request that pulls the asset `item_id`.
    pub fn pull_animation(&self, item_id: u64) -> (request: HttpRequest)
        ensures
            !request.post,
            request.url@ == ASSET_DELIVERY_URL@ + decimal(item_id as nat),
            header_texts(request.headers@) == session_headers(*self),
            request.body is None,
    {
        HttpRequest {
            post: false,
            url: asset_url(item_id),
            headers: self.token_and_cookie(),
            body: None,
        }
    }

    /// The request that publishes an animation: a post to the publishing
    /// address with the client name, the token and the cookie as headers
    /// and the base-64 text of the payload as body.
    ///
    /// Fails with `MissingAnimationData` exactly when the animation has no
    /// payload; else with `RoblosecurityNotSet` exactly when no credential
    /// is set.
    pub fn publish_animation(&self, new_animation: &Animation) -> (request: Result<
        HttpRequest,
        RobloxError,
    >)
        ensures
            match request {
                Ok(r) => {
                    &&& new_animation.animation_data is Some
                    &&& self.cookie_string is Some
                    &&& r.post
                    &&& r.url@ == UPLOAD_ANIMATION_URL@.push('?') + form_urlencoded(
                        upload_pairs(*new_animation),
                    )
                    &&& header_texts(r.headers@) == seq![
                        (USER_AGENT_HEADER@, USER_AGENT@),
                        (XCSRF_HEADER@, self.xcsrf@),
                        (COOKIE_HEADER@, self.cookie_string->0@),
                    ]
                    &&& body_text(r.body) == Some(
                        base64_text(new_animation.animation_data->0@),
                    )
                },
                Err(e) => if new_animation.animation_data is None {
                    e == RobloxError::MissingAnimationData
                } else {
                    self.cookie_string is None && e == RobloxError::RoblosecurityNotSet
                },
            },
    {
        let url = upload_animation_url(new_animation);
        let mut headers: Vec<(String, String)> = Vec::new();
        headers.push(header(USER_AGENT_HEADER, USER_AGENT));
        headers.push(header(XCSRF_HEADER, self.xcsrf.as_str()));
        let body = match &new_animation.animation_data {
            Some(data) => base64_encode(data),
            None => {
                return Err(RobloxError::MissingAnimationData);
            },
        };
        match &self.cookie_string {
            Some(cookie) => {
                headers.push(header(COOKIE_HEADER, cookie.as_str()));
            },
            None => {
                return Err(RobloxError::RoblosecurityNotSet);
            },
        }
        proof {
            assert(header_texts(headers@) =~= seq![
                (USER_AGENT_HEADER@, USER_AGENT@),
                (XCSRF_HEADER@, self.xcsrf@),
                (COOKIE_HEADER@, self.cookie_string->0@),
            ]);
        }
        Ok(HttpRequest { post: true, url, headers, body: Some(body) })
    }
}

} // verus!
