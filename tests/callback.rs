use ffxiv_login::callback::{extract_launch_params, is_in_comment};
use ffxiv_login::params::parse_login_params;

fn chars(s: &str) -> Vec<char> {
    s.chars().collect()
}

const LOGIN_PAGE: &str = r#"<html>
<head>
<script type="text/javascript">
// window.external.user("login=auth,ng");
/* window.external.user("login=auth,ng,err,old"); */
function done() {
    window.external.user("login=auth,ok,sid,0123456789ABCDEF,terms,1,region,3,etmadd,0,playable,1,ps3pkg,0,maxex,5,product,1");
}
</script>
</head>
<body onload="done()"></body>
</html>"#;

#[test]
fn test_extract_launch_params() {
    let res = extract_launch_params(LOGIN_PAGE);
    assert!(res.is_some());
    let p = res.unwrap();
    assert_eq!(p.get("sid").unwrap(), "0123456789ABCDEF");
    assert_eq!(p.get("maxex").unwrap(), "5");
}

#[test]
fn commented_callback_is_skipped() {
    let text = "// window.external.user(\"login=auth,ng\");\nwindow.external.user(\"login=auth,ok,sid,ABC123,region,2,terms,1,playable,1,maxex,3\");";
    let p = extract_launch_params(text).unwrap();
    assert_eq!(p.get("auth").unwrap(), "ok");
    assert_eq!(p.get("sid").unwrap(), "ABC123");
    assert_eq!(p.get("region").unwrap(), "2");
    assert_eq!(p.get("terms").unwrap(), "1");
    assert_eq!(p.get("playable").unwrap(), "1");
    assert_eq!(p.get("maxex").unwrap(), "3");
}

#[test]
fn block_commented_callback_is_skipped() {
    let text = "/* window.external.user(\"login=auth,ng\"); */ window.external.user(\"login=auth,ok,sid,S\");";
    let p = extract_launch_params(text).unwrap();
    assert_eq!(p.get("auth").unwrap(), "ok");
    assert_eq!(p.get("sid").unwrap(), "S");
}

#[test]
fn only_commented_callback_gives_nothing() {
    assert!(extract_launch_params("  // window.external.user(\"login=auth,ok\");").is_none());
    assert!(extract_launch_params("/* window.external.user(\"login=auth,ok\");").is_none());
}

#[test]
fn payload_without_login_prefix_gives_nothing() {
    assert!(extract_launch_params("window.external.user(\"restartup\");").is_none());
}

#[test]
fn unclosed_callback_gives_nothing() {
    assert!(extract_launch_params("window.external.user(\"login=auth,ok").is_none());
}

#[test]
fn params_pairs_are_decoded() {
    let p = parse_login_params(&chars("auth,ok,sid,ABC123,region,2")).unwrap();
    assert_eq!(p.get("auth").unwrap(), "ok");
    assert_eq!(p.get("sid").unwrap(), "ABC123");
    assert_eq!(p.get("region").unwrap(), "2");
    assert!(p.get("extra").is_none());
}

#[test]
fn trailing_key_is_dropped() {
    let p = parse_login_params(&chars("auth,ok,extra")).unwrap();
    assert_eq!(p.get("auth").unwrap(), "ok");
    assert!(p.get("extra").is_none());
}

#[test]
fn later_pair_overrides_earlier() {
    let p = parse_login_params(&chars("a,1,a,2")).unwrap();
    assert_eq!(p.get("a").unwrap(), "2");
    assert_eq!(p.value_or_empty("b"), "");
}

#[test]
fn payload_without_comma_gives_empty_map() {
    let p = parse_login_params(&chars("auth")).unwrap();
    assert!(p.get("auth").is_none());
    let p = parse_login_params(&chars("")).unwrap();
    assert!(p.get("").is_none());
    let p = extract_launch_params("window.external.user(\"login=auth\");").unwrap();
    assert!(p.get("auth").is_none());
}

#[test]
fn comment_detection() {
    let text = chars("a\n  // x\n/* y */ z /* w");
    let x = 7;
    assert_eq!(text[x], 'x');
    assert!(is_in_comment(&text, x));
    let z = 17;
    assert_eq!(text[z], 'z');
    assert!(!is_in_comment(&text, z));
    let w = text.len() - 1;
    assert!(is_in_comment(&text, w));
    assert!(!is_in_comment(&text, 0));
}
