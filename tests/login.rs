use ffxiv_login::error::Error;
use ffxiv_login::form::{extract_form, FormFields, HtmlForm, HtmlInput};
use ffxiv_login::login::{
    get_oauth_top, get_oauth_top_url, login_post, read_login_response, read_top_page, start_login,
    top_url_params, LoginRequest,
};
use ffxiv_login::number::{decimal_string, parse_u8};
use ffxiv_login::ticket::Ticket;

const TOP_PAGE: &str = r#"<html><body>
<form name="otherForm" action="/wrong" method="post"><input name="z" value="9"></form>
<form name="mainForm" action="login.send" method="post">
<input type="hidden" name="_STORED_" value="abc123">
<input type="text" name="sqexid">
<input type="hidden" name="a" value="1">
</form>
</body></html>"#;

fn field<'a>(f: &'a FormFields, key: &str) -> Option<&'a String> {
    f.entries().iter().find(|(k, _)| k == key).map(|(_, v)| v)
}

fn s(x: &str) -> Option<String> {
    Some(x.to_string())
}

fn input(name: Option<String>, value: Option<String>) -> HtmlInput {
    HtmlInput { name, value }
}

#[test]
fn form_inputs_without_value_are_skipped() {
    let forms = vec![HtmlForm {
        name: s("mainForm"),
        action: None,
        method: s("post"),
        inputs: vec![input(s("a"), s("1")), input(s("b"), None), input(None, s("x"))],
    }];
    let f = extract_form(&forms, "mainForm").unwrap();
    assert_eq!(f.action, "");
    assert_eq!(f.method, "post");
    assert_eq!(f.fields.entries().len(), 1);
    assert_eq!(field(&f.fields, "a").unwrap(), "1");
    assert!(extract_form(&forms, "otherForm").is_none());
    assert!(extract_form(&Vec::new(), "mainForm").is_none());
}

#[test]
fn form_duplicate_names_keep_last_value() {
    let forms = vec![HtmlForm {
        name: s("mainForm"),
        action: s("x"),
        method: s("POST"),
        inputs: vec![input(s("a"), s("1")), input(s("a"), s("2"))],
    }];
    let f = extract_form(&forms, "mainForm").unwrap();
    assert_eq!(f.fields.entries().len(), 1);
    assert_eq!(field(&f.fields, "a").unwrap(), "2");
    assert!(read_top_page("<html></html>", &forms).is_ok());
}

#[test]
fn html_form_is_extracted() {
    let f = get_oauth_top(TOP_PAGE).unwrap();
    assert_eq!(f.action, "login.send");
    assert_eq!(f.method, "post");
    assert_eq!(f.fields.entries().len(), 2);
    assert_eq!(field(&f.fields, "_STORED_").unwrap(), "abc123");
    assert_eq!(field(&f.fields, "a").unwrap(), "1");
    assert!(field(&f.fields, "sqexid").is_none());
}

#[test]
fn page_without_main_form_is_missing_form() {
    let page = "<html><form name=\"other\" method=\"post\"><input name=\"a\" value=\"1\"></form></html>";
    assert_eq!(get_oauth_top(page).err(), Some(Error::MissingLoginForm));
}

#[test]
fn form_with_get_or_no_fields_is_missing_form() {
    let top = "https://ffxiv-login.square-enix.com/oauth/ffxivarr/login/top".to_string();
    let req = || LoginRequest::new().with_username("u".to_string()).with_password("p".to_string());
    let get = "<form name=\"mainForm\" method=\"get\"><input name=\"a\" value=\"1\"></form>";
    let form = get_oauth_top(get).unwrap();
    assert_eq!(form.method, "get");
    assert_eq!(login_post(&top, form, req()).err(), Some(Error::MissingLoginForm));
    let empty = "<form name=\"mainForm\" method=\"post\"><input name=\"a\"></form>";
    let form = get_oauth_top(empty).unwrap();
    assert_eq!(form.fields.entries().len(), 0);
    assert_eq!(login_post(&top, form, req()).err(), Some(Error::MissingLoginForm));
    let upper = "<form name=\"mainForm\" method=\"POST\"><input name=\"a\" value=\"1\"></form>";
    assert!(login_post(&top, get_oauth_top(upper).unwrap(), req()).is_ok());
}

#[test]
fn restart_phrase_is_wrong_client() {
    let page = format!("{}<script>window.external.user(\"restartup\");</script>", TOP_PAGE);
    assert_eq!(get_oauth_top(&page).err(), Some(Error::Restartup));
}

#[test]
fn plain_login_needs_credentials() {
    let r = start_login(LoginRequest::new(), None);
    assert_eq!(r.err(), Some(Error::MissingUsername));
    let r = start_login(LoginRequest::new().with_username("player1".to_string()), None);
    assert_eq!(r.err(), Some(Error::MissingPassword));
}

#[test]
fn top_url_holds_query() {
    let req = LoginRequest::new().with_region(-3).with_free_trial();
    let url = get_oauth_top_url(&req, None).unwrap();
    assert_eq!(
        url,
        "https://ffxiv-login.square-enix.com/oauth/ffxivarr/login/top?lng=en&rgn=-3&isft=1&cssmode=1&isnew=1&launchver=3"
    );
    let params = top_url_params(&LoginRequest::new(), None);
    let keys: Vec<&str> = params.iter().map(|(k, _)| k.as_str()).collect();
    assert_eq!(keys, vec!["lng", "isft", "cssmode", "isnew", "launchver"]);
    assert_eq!(params[1].1, "0");
}

#[test]
fn platform_login_sends_ticket_and_drops_credentials() {
    let ticket = Ticket { text: "AB*,CD".to_string(), length: 5 };
    let req = LoginRequest::new().with_username("u".to_string()).with_password("p".to_string());
    let start = start_login(req, Some(ticket)).unwrap();
    assert!(start.request.username.is_none());
    assert!(start.request.password.is_none());
    assert!(start.top_url.ends_with("&issteam=1&session_ticket=AB*%2CCD&ticket_size=5"));
}

#[test]
fn end_to_end_success() {
    let req = LoginRequest::new()
        .with_username("player1".to_string())
        .with_password("secret".to_string());
    let start = start_login(req, None).unwrap();
    assert!(start.top_url.contains("lng=en"));
    assert!(!start.top_url.contains("rgn="));
    let form = get_oauth_top(TOP_PAGE).unwrap();
    let post = login_post(&start.top_url, form, start.request).unwrap();
    assert_eq!(post.url, "https://ffxiv-login.square-enix.com/oauth/ffxivarr/login/login.send");
    assert_eq!(post.referer, start.top_url);
    assert_eq!(field(&post.fields, "sqexid").unwrap(), "player1");
    assert_eq!(field(&post.fields, "password").unwrap(), "secret");
    assert_eq!(field(&post.fields, "_STORED_").unwrap(), "abc123");
    assert!(field(&post.fields, "otppw").is_none());
    let body = "<script>window.external.user(\"login=auth,ok,sid,XYZ,region,3,terms,1,playable,1,maxex,4\");</script>";
    let res = read_login_response(body).unwrap();
    assert_eq!(res.session_id, "XYZ");
    assert_eq!(res.region, 3);
    assert!(res.terms_accepted);
    assert!(res.playable);
    assert_eq!(res.max_expansion, 4);
}

#[test]
fn otp_is_posted() {
    let req = LoginRequest::new()
        .with_username("player1".to_string())
        .with_password("secret".to_string())
        .with_otp("123456".to_string());
    let start = start_login(req, None).unwrap();
    let form = get_oauth_top(TOP_PAGE).unwrap();
    let post = login_post(&start.top_url, form, start.request).unwrap();
    assert_eq!(field(&post.fields, "otppw").unwrap(), "123456");
}

#[test]
fn end_to_end_rejection() {
    let body = "window.external.user(\"login=auth,ng,err,Invalid+password\");";
    assert_eq!(
        read_login_response(body).err(),
        Some(Error::LoginFailureMessage("Invalid+password".to_string()))
    );
}

#[test]
fn response_without_callback_is_failure() {
    assert_eq!(read_login_response("<html></html>").err(), Some(Error::LoginFailure));
}

#[test]
fn response_with_bad_number_is_parse_error() {
    let body = "window.external.user(\"login=auth,ok,sid,X,region,300,terms,0,playable,0,maxex,1\");";
    assert_eq!(read_login_response(body).err(), Some(Error::ParseIntError));
    let body = "window.external.user(\"login=auth,ok,sid,X,region,1,terms,0,playable,0,maxex,x\");";
    assert_eq!(read_login_response(body).err(), Some(Error::ParseIntError));
    let body = "window.external.user(\"login=auth,ok,sid,X,region,+1,terms,0,playable,0,maxex,0\");";
    let r = read_login_response(body).unwrap();
    assert_eq!(r.region, 1);
    assert!(!r.terms_accepted);
    assert!(!r.playable);
}

#[test]
fn numbers_parse_and_print() {
    assert_eq!(parse_u8("255"), Some(255));
    assert_eq!(parse_u8("256"), None);
    assert_eq!(parse_u8("+7"), Some(7));
    assert_eq!(parse_u8("+"), None);
    assert_eq!(parse_u8(""), None);
    assert_eq!(parse_u8("-1"), None);
    assert_eq!(parse_u8("007"), Some(7));
    assert_eq!(decimal_string(-128), "-128");
    assert_eq!(decimal_string(0), "0");
    assert_eq!(decimal_string(65535), "65535");
}

#[test]
fn username_is_masked() {
    assert_eq!(LoginRequest::new().masked_username(), None);
    let short = LoginRequest::new().with_username("abc".to_string());
    assert_eq!(short.masked_username(), Some("abc".to_string()));
    let long = LoginRequest::new().with_username("player1".to_string());
    assert_eq!(long.masked_username(), Some("pla***".to_string()));
    let wide = LoginRequest::new().with_username("\u{e9}\u{e9}".to_string());
    assert_eq!(wide.masked_username(), Some("\u{e9}\u{e9}***".to_string()));
}

#[test]
fn response_with_missing_key_is_missing_field() {
    let cases = [
        ("sid,X", "auth"),
        ("auth,ng", "err"),
        ("auth,ok,region,1,terms,1,playable,1,maxex,1", "sid"),
        ("auth,ok,sid,X,terms,1,playable,1,maxex,1", "region"),
        ("auth,ok,sid,X,region,1,playable,1,maxex,1", "terms"),
        ("auth,ok,sid,X,region,1,terms,1,maxex,1", "playable"),
        ("auth,ok,sid,X,region,1,terms,1,playable,1", "maxex"),
    ];
    for (payload, key) in cases {
        let body = format!("window.external.user(\"login={}\");", payload);
        assert_eq!(read_login_response(&body).err(), Some(Error::MissingField(key.to_string())), "{}", payload);
    }
}

#[test]
fn top_url_without_options() {
    let url = get_oauth_top_url(&LoginRequest::new(), None).unwrap();
    assert_eq!(
        url,
        "https://ffxiv-login.square-enix.com/oauth/ffxivarr/login/top?lng=en&isft=0&cssmode=1&isnew=1&launchver=3"
    );
}
