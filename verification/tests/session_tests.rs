use animation_replace_roblox::record::ItemError;
use animation_replace_roblox::request_types::{
    asset_delivery_url, asset_url, pull_animation, push_animation, upload_animation_url,
    upload_parameters, with_query, Animation,
};
use animation_replace_roblox::session::{
    handle_status, process_unauth, validate_request_result, HttpRequest, Response, RobloxError,
    RobloxSession, SessionBuilder, CHALLENGE_MESSAGE, XCSRF_HEADER,
};

fn animation(group_id: Option<u64>, data: Option<&[u8]>) -> Animation {
    Animation {
        id: Some(5),
        title: "My Animation".to_string(),
        description: "walk & run=1".to_string(),
        group_id,
        animation_data: data.map(|d| d.to_vec()),
    }
}

fn response(status: u16, xcsrf: Option<&str>, errors: Option<Vec<(u16, &str)>>) -> Response {
    Response {
        status,
        xcsrf: xcsrf.map(|t| t.to_string()),
        errors: errors.map(|list| {
            list.into_iter()
                .map(|(code, message)| ItemError { code, message: message.to_string() })
                .collect()
        }),
    }
}

fn pairs(request: &HttpRequest) -> Vec<(&str, &str)> {
    request.headers.iter().map(|(k, v)| (k.as_str(), v.as_str())).collect()
}

#[test]
fn delivery_address_writes_the_optional_id() {
    assert_eq!(
        asset_delivery_url(&animation(None, None)),
        "https://assetdelivery.roblox.com/v1/asset/?id=Some(5)"
    );
    let mut a = animation(None, None);
    a.id = None;
    assert_eq!(asset_delivery_url(&a), "https://assetdelivery.roblox.com/v1/asset/?id=None");
    assert_eq!(asset_url(180435571), "https://assetdelivery.roblox.com/v1/asset/?id=180435571");
    assert_eq!(pull_animation(7), "https://assetdelivery.roblox.com/v1/asset/?id=7");
}

#[test]
fn pushed_animation_has_the_fixed_texts() {
    let a = push_animation(9);
    assert_eq!(a.id, Some(9));
    assert_eq!(a.title, "My Animation");
    assert_eq!(a.description, "This is an animation.");
    assert_eq!(a.group_id, None);
    assert!(a.animation_data.is_none());
}

#[test]
fn upload_parameters_in_order() {
    let list = upload_parameters(&animation(Some(123456), None));
    let got: Vec<(&str, &str)> = list.iter().map(|(k, v)| (k.as_str(), v.as_str())).collect();
    assert_eq!(
        got,
        vec![
            ("assetTypeName", "Animation"),
            ("name", "My Animation"),
            ("description", "walk & run=1"),
            ("AllID", "1"),
            ("ispublic", "False"),
            ("allowComments", "True"),
            ("isGamesAsset", "False"),
            ("groupId", "123456"),
        ]
    );
    assert_eq!(upload_parameters(&animation(None, None)).len(), 7);
}

#[test]
fn upload_address_is_form_encoded() {
    assert_eq!(
        upload_animation_url(&animation(Some(123456), None)),
        "https://www.roblox.com/ide/publish/uploadnewanimation?assetTypeName=Animation&name=My+Animation&description=walk+%26+run%3D1&AllID=1&ispublic=False&allowComments=True&isGamesAsset=False&groupId=123456"
    );
    assert_eq!(
        upload_animation_url(&animation(None, None)),
        "https://www.roblox.com/ide/publish/uploadnewanimation?assetTypeName=Animation&name=My+Animation&description=walk+%26+run%3D1&AllID=1&ispublic=False&allowComments=True&isGamesAsset=False"
    );
    assert_eq!(with_query("http://a/b", "c=d"), "http://a/b?c=d");
    assert_eq!(with_query("", ""), "?");
}

#[test]
fn status_200_is_success() {
    let r = handle_status(response(200, Some("t"), None)).unwrap();
    assert_eq!(r.status, 200);
    assert_eq!(r.xcsrf, Some("t".to_string()));
}

#[test]
fn status_codes_have_their_errors() {
    assert_eq!(handle_status(response(429, None, None)).err(), Some(RobloxError::TooManyRequests));
    assert_eq!(handle_status(response(500, None, None)).err(), Some(RobloxError::InternalServerError));
    assert_eq!(
        handle_status(response(404, Some("t"), None)).err(),
        Some(RobloxError::UnknownRobloxErrorCode { code: 404, message: String::new() })
    );
    assert_eq!(
        handle_status(response(401, None, Some(vec![(0, "x")]))).err(),
        Some(RobloxError::UnknownRobloxErrorCode { code: 401, message: String::new() })
    );
    for status in [400u16, 403] {
        assert_eq!(
            handle_status(response(status, Some("new"), Some(vec![(0, "Token Validation Failed")]))).err(),
            Some(RobloxError::InvalidXcsrf("new".to_string()))
        );
    }
}

#[test]
fn refused_request_by_first_error() {
    assert_eq!(
        process_unauth(response(403, Some("new"), Some(vec![(0, "a"), (7, "b")]))),
        RobloxError::InvalidXcsrf("new".to_string())
    );
    assert_eq!(
        process_unauth(response(403, None, Some(vec![(0, "a")]))),
        RobloxError::XcsrfNotReturned
    );
    assert_eq!(
        process_unauth(response(403, Some("new"), Some(vec![(7, "no"), (0, "a")]))),
        RobloxError::UnknownRobloxErrorCode { code: 7, message: "no".to_string() }
    );
    assert_eq!(
        process_unauth(response(403, Some("new"), Some(vec![(7, CHALLENGE_MESSAGE)]))),
        RobloxError::UnknownStatus403Format
    );
    assert_eq!(
        process_unauth(response(403, Some("new"), Some(vec![]))),
        RobloxError::UnknownStatus403Format
    );
    assert_eq!(
        process_unauth(response(403, Some("new"), None)),
        RobloxError::InvalidXcsrf("new".to_string())
    );
    assert_eq!(process_unauth(response(403, None, None)), RobloxError::XcsrfNotReturned);
}

#[test]
fn transport_failure_is_reported_as_such() {
    assert_eq!(validate_request_result(None).err(), Some(RobloxError::ReqwestError));
    assert!(validate_request_result(Some(response(200, None, None))).is_ok());
    assert_eq!(
        validate_request_result(Some(response(429, None, None))).err(),
        Some(RobloxError::TooManyRequests)
    );
}

#[test]
fn session_is_built_with_cookie_text() {
    let session = SessionBuilder::new().roblosecurity("abc".to_string()).build().unwrap();
    assert_eq!(session.cookie_string, Some(".ROBLOSECURITY=abc".to_string()));
    assert_eq!(session.xcsrf, "");
    assert_eq!(session.read_cookie(), Ok(".ROBLOSECURITY=abc".to_string()));
    assert_eq!(session.read_xcsrf(), "");
    let bare = SessionBuilder::new().build().unwrap();
    assert_eq!(bare.cookie_string, None);
    assert_eq!(bare.read_cookie(), Err(RobloxError::RoblosecurityNotSet));
    assert_eq!(RobloxSession::create_cookie_string_header(""), ".ROBLOSECURITY=");
}

#[test]
fn refused_token_is_replaced_and_the_request_repeated() {
    let mut session = SessionBuilder::new().roblosecurity("abc".to_string()).build().unwrap();
    assert_eq!(session.retry_with_new_token(RobloxError::InvalidXcsrf("t1".to_string())), Ok(()));
    assert_eq!(session.xcsrf, "t1");
    assert_eq!(
        session.retry_with_new_token(RobloxError::TooManyRequests),
        Err(RobloxError::TooManyRequests)
    );
    assert_eq!(session.xcsrf, "t1");
    assert_eq!(session.refresh_csrf(Ok(())), Ok(()));
    assert_eq!(session.xcsrf, "t1");
    assert_eq!(session.refresh_csrf(Err(RobloxError::InvalidXcsrf("t2".to_string()))), Ok(()));
    assert_eq!(session.xcsrf, "t2");
    assert_eq!(
        session.refresh_csrf(Err(RobloxError::XcsrfNotReturned)),
        Err(RobloxError::XcsrfNotReturned)
    );
    session.set_xcsrf("t3".to_string());
    assert_eq!(session.read_xcsrf(), "t3");
    assert_eq!(session.cookie_string, Some(".ROBLOSECURITY=abc".to_string()));
}

#[test]
fn requests_carry_token_and_cookie() {
    let mut session = SessionBuilder::new().roblosecurity("abc".to_string()).build().unwrap();
    session.set_xcsrf("tok".to_string());
    let pull = session.pull_animation(77);
    assert!(!pull.post);
    assert_eq!(pull.url, "https://assetdelivery.roblox.com/v1/asset/?id=77");
    assert_eq!(pairs(&pull), vec![(XCSRF_HEADER, "tok"), ("cookie", ".ROBLOSECURITY=abc")]);
    assert_eq!(pull.body, None);
    let refresh = session.refresh_request();
    assert!(refresh.post);
    assert_eq!(refresh.url, "https://auth.roblox.com/v2/login");
    assert_eq!(pairs(&refresh), vec![("x-csrf-token", "tok"), ("cookie", ".ROBLOSECURITY=abc")]);
    let bare = SessionBuilder::new().build().unwrap();
    assert_eq!(pairs(&bare.pull_animation(1)), vec![("x-csrf-token", "")]);
}

#[test]
fn publish_request_has_base64_body() {
    let mut session = SessionBuilder::new().roblosecurity("abc".to_string()).build().unwrap();
    session.set_xcsrf("tok".to_string());
    let request = session.publish_animation(&animation(None, Some(b"hello world~"))).unwrap();
    assert!(request.post);
    assert!(request.url.starts_with("https://www.roblox.com/ide/publish/uploadnewanimation?assetTypeName=Animation&"));
    assert_eq!(
        pairs(&request),
        vec![
            ("user-agent", "Roblox/WinInet"),
            ("x-csrf-token", "tok"),
            ("cookie", ".ROBLOSECURITY=abc"),
        ]
    );
    assert_eq!(request.body, Some("aGVsbG8gd29ybGR+".to_string()));
    let padded = session.publish_animation(&animation(None, Some(b"a"))).unwrap();
    assert_eq!(padded.body, Some("YQ==".to_string()));
    let empty = session.publish_animation(&animation(None, Some(b""))).unwrap();
    assert_eq!(empty.body, Some(String::new()));
}

#[test]
fn publish_request_needs_payload_then_cookie() {
    let session = SessionBuilder::new().roblosecurity("abc".to_string()).build().unwrap();
    assert_eq!(
        session.publish_animation(&animation(None, None)).err(),
        Some(RobloxError::MissingAnimationData)
    );
    let bare = SessionBuilder::new().build().unwrap();
    assert_eq!(
        bare.publish_animation(&animation(None, None)).err(),
        Some(RobloxError::MissingAnimationData)
    );
    assert_eq!(
        bare.publish_animation(&animation(None, Some(b"x"))).err(),
        Some(RobloxError::RoblosecurityNotSet)
    );
}
