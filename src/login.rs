use vstd::prelude::*;
use crate::callback::{extract_launch_params, launch_params_of};
use crate::error::Error;
use crate::form::{extract_form, form_of, forms_view, html_forms, html_forms_of, FormFields, HtmlForm};
use crate::number::{decimal_string, decimal_text, parse_u8, parsed_u8};
use crate::params::pair_views;
use crate::text::{chars_of, matches_at, occurs_at};
use crate::ticket::Ticket;

verus! {

#[verifier::external_type_specification]
#[verifier::external_body]
pub struct ExSecureString(secure_string::SecureString);

#[verifier::external_type_specification]
#[verifier::external_body]
pub struct ExParseError(url::ParseError);

/// The text that a secure string holds.
pub uninterp spec fn secret_of(p: secure_string::SecureString) -> Seq<char>;

/// Relies on `SecureString::from`, which takes the string's bytes into locked
/// memory unchanged.
#[verifier::external_body]
fn sealed(s: String) -> (r: secure_string::SecureString)
    ensures
        secret_of(r) == s@,
{
    secure_string::SecureString::from(s)
}

/// Relies on `SecureString::unsecure`, which hands back the stored text.
#[verifier::external_body]
fn unsealed(p: &secure_string::SecureString) -> (r: String)
    ensures
        r@ == secret_of(*p),
{
    p.unsecure().to_string()
}

/// What `Url::parse_with_params` serializes for `base` with the query pairs
/// appended, form-urlencoded.
pub uninterp spec fn url_with_params_of(base: Seq<char>, params: Seq<(Seq<char>, Seq<char>)>) -> Seq<char>;

/// What `Url::join` serializes for `reference` resolved against the URL `base`.
/// Nothing where `base` is no URL or `reference` cannot be resolved.
pub uninterp spec fn url_join_of(base: Seq<char>, reference: Seq<char>) -> Option<Seq<char>>;

/// Relies on url's `Url::parse_with_params`, serialized by `From<Url> for String`;
/// it fails only where `base` does not parse, and the login page's URL does.
#[verifier::external_body]
fn url_with_params(base: &str, params: &Vec<(String, String)>) -> (r: Result<String, url::ParseError>)
    ensures
        r is Ok ==> r->Ok_0@ == url_with_params_of(base@, pair_views(params@)),
        base@ == top_url_text() ==> r is Ok,
{
    url::Url::parse_with_params(base, params.iter()).map(String::from)
}

/// Relies on url's `Url::parse` of `base` and `Url::join` of `reference`,
/// serialized by `From<Url> for String`.
#[verifier::external_body]
fn joined_url(base: &str, reference: &str) -> (r: Result<String, url::ParseError>)
    ensures
        r is Ok <==> url_join_of(base@, reference@) is Some,
        r is Ok ==> r->Ok_0@ == url_join_of(base@, reference@)->Some_0,
{
    url::Url::parse(base).and_then(|u| u.join(reference)).map(String::from)
}

/// The credentials and options of one authentication attempt.
#[derive(Clone)]
pub struct LoginRequest {
    pub username: Option<String>,
    pub password: Option<secure_string::SecureString>,
    pub otp: Option<String>,
    pub region: Option<i8>,
    pub is_free_trial: Option<bool>,
}

/// What a successful login yields.
pub struct LoginResponse {
    pub session_id: String,
    pub region: u8,
    pub terms_accepted: bool,
    pub playable: bool,
    pub max_expansion: u8,
}

/// The plain login backend.
pub struct GlobalClient {}

impl Default for GlobalClient {
    fn default() -> (r: Self) {
        GlobalClient {}
    }
}

pub open spec fn opt_str(o: Option<String>) -> Option<Seq<char>> {
    match o {
        Some(s) => Some(s@),
        None => None,
    }
}

/// The username as diagnostics may show it: kept when it is at most three
/// bytes long, else its first three characters and `***`.
pub open spec fn masked(u: Seq<char>, byte_len: usize) -> Seq<char> {
    if byte_len <= 3 {
        u
    } else if u.len() < 3 {
        u + "***"@
    } else {
        u.take(3) + "***"@
    }
}

impl LoginRequest {
    /// The username masked for logs.
    pub fn masked_username(&self) -> (r: Option<String>)
        ensures
            self.username is None ==> r is None,
            self.username is Some ==> r is Some && r->Some_0@ == masked(
                self.username->Some_0@,
                vstd::utf8::encode_utf8(self.username->Some_0@).len() as usize,
            ),
    {
        match &self.username {
            None => None,
            Some(u) => {
                let s = u.as_str();
                let n = s.len();
                if n <= 3 {
                    Some(u.clone())
                } else {
                    let cs = chars_of(u.as_str());
                    let mut v: Vec<char> = Vec::new();
                    let mut i: usize = 0;
                    while i < 3 && i < cs.len()
                        invariant
                            i <= 3,
                            i <= cs@.len(),
                            v@ == cs@.take(i as int),
                        decreases 3 - i,
                    {
                        v.push(cs[i]);
                        i = i + 1;
                        assert(v@ =~= cs@.take(i as int));
                    }
                    assert(cs@.len() < 3 ==> cs@.take(i as int) =~= cs@);
                    v.push('*');
                    v.push('*');
                    v.push('*');
                    proof { reveal_strlit("***"); }
                    assert(v@ =~= masked(u@, vstd::utf8::encode_utf8(u@).len() as usize));
                    Some(crate::text::string_of(v.as_slice()))
                }
            },
        }
    }

    pub fn new() -> (r: Self)
        ensures
            r.username is None,
            r.password is None,
            r.otp is None,
            r.region is None,
            r.is_free_trial is None,
    {
        LoginRequest { username: None, password: None, otp: None, region: None, is_free_trial: None }
    }

    pub fn with_username(self, username: String) -> (r: Self)
        ensures
            opt_str(r.username) == Some(username@),
            r.password == self.password,
            r.otp == self.otp,
            r.region == self.region,
            r.is_free_trial == self.is_free_trial,
    {
        LoginRequest { username: Some(username), ..self }
    }

    pub fn with_password(self, password: String) -> (r: Self)
        ensures
            r.password is Some && secret_of(r.password->Some_0) == password@,
            r.username == self.username,
            r.otp == self.otp,
            r.region == self.region,
            r.is_free_trial == self.is_free_trial,
    {
        LoginRequest { password: Some(sealed(password)), ..self }
    }

    pub fn with_otp(self, otp: String) -> (r: Self)
        ensures
            opt_str(r.otp) == Some(otp@),
            r.username == self.username,
            r.password == self.password,
            r.region == self.region,
            r.is_free_trial == self.is_free_trial,
    {
        LoginRequest { otp: Some(otp), ..self }
    }

    pub fn with_region(self, region: i8) -> (r: Self)
        ensures
            r.region == Some(region),
            r.username == self.username,
            r.password == self.password,
            r.otp == self.otp,
            r.is_free_trial == self.is_free_trial,
    {
        LoginRequest { region: Some(region), ..self }
    }

    pub fn with_free_trial(self) -> (r: Self)
        ensures
            r.is_free_trial == Some(true),
            r.username == self.username,
            r.password == self.password,
            r.otp == self.otp,
            r.region == self.region,
    {
        LoginRequest { is_free_trial: Some(true), ..self }
    }
}

/// The login page that the flow starts from.
pub const TOP_URL: &'static str = "https://ffxiv-login.square-enix.com/oauth/ffxivarr/login/top";

pub open spec fn top_url_text() -> Seq<char> {
    "https://ffxiv-login.square-enix.com/oauth/ffxivarr/login/top"@
}

/// The query of the top page: locale, region if any, free-trial flag, the
/// fixed flags, then the platform ticket if one is used.
pub open spec fn top_params(region: Option<i8>, free_trial: Option<bool>, ticket: Option<(Seq<char>, u16)>) -> Seq<(Seq<char>, Seq<char>)> {
    seq![("lng"@, "en"@)]
        + match region {
            Some(r) => seq![("rgn"@, decimal_text(r as int))],
            None => Seq::empty(),
        }
        + seq![
            ("isft"@, if free_trial == Some(true) { "1"@ } else { "0"@ }),
            ("cssmode"@, "1"@),
            ("isnew"@, "1"@),
            ("launchver"@, "3"@),
        ]
        + match ticket {
            Some(t) => seq![("issteam"@, "1"@), ("session_ticket"@, t.0), ("ticket_size"@, decimal_text(t.1 as int))],
            None => Seq::empty(),
        }
}

pub open spec fn ticket_view(t: Option<Ticket>) -> Option<(Seq<char>, u16)> {
    match t {
        Some(t) => Some((t.text@, t.length)),
        None => None,
    }
}

fn pair(a: &str, b: String) -> (r: (String, String))
    ensures
        r.0@ == a@,
        r.1@ == b@,
{
    (String::from_str(a), b)
}

/// The query pairs of the top page.
pub fn top_url_params(req: &LoginRequest, steam: Option<Ticket>) -> (r: Vec<(String, String)>)
    ensures
        pair_views(r@) == top_params(req.region, req.is_free_trial, ticket_view(steam)),
{
    let mut v: Vec<(String, String)> = Vec::new();
    v.push(pair("lng", String::from_str("en")));
    if let Some(r) = req.region {
        v.push(pair("rgn", decimal_string(r as i32)));
    }
    let ft = match req.is_free_trial {
        Some(b) => b,
        None => false,
    };
    v.push(pair("isft", String::from_str(if ft { "1" } else { "0" })));
    v.push(pair("cssmode", String::from_str("1")));
    v.push(pair("isnew", String::from_str("1")));
    v.push(pair("launchver", String::from_str("3")));
    let ghost tv = ticket_view(steam);
    if let Some(t) = steam {
        let size = decimal_string(t.length as i32);
        v.push(pair("issteam", String::from_str("1")));
        v.push(pair("session_ticket", t.text));
        v.push(pair("ticket_size", size));
    }
    assert(pair_views(v@) =~= top_params(req.region, req.is_free_trial, tv));
    v
}

/// The top page's URL with its query.
pub fn get_oauth_top_url(req: &LoginRequest, steam: Option<Ticket>) -> (r: Result<String, Error>)
    ensures
        r is Ok,
        r->Ok_0@ == url_with_params_of(top_url_text(), top_params(req.region, req.is_free_trial, ticket_view(steam))),
{
    let params = top_url_params(req, steam);
    match url_with_params(TOP_URL, &params) {
        Ok(u) => Ok(u),
        Err(_) => Err(Error::ParseError),
    }
}

/// The start of an attempt: the request as it will be used, and the URL of
/// the top page.
pub struct LoginStart {
    pub request: LoginRequest,
    pub top_url: String,
}

/// Checks the credentials and builds the top page's URL. A plain attempt
/// needs a username and a password; a platform attempt drops both.
pub fn start_login(req: LoginRequest, steam: Option<Ticket>) -> (r: Result<LoginStart, Error>)
    ensures
        steam is None && req.username is None ==> r is Err && r->Err_0 == Error::MissingUsername,
        steam is None && req.username is Some && req.password is None ==> r is Err && r->Err_0 == Error::MissingPassword,
        (steam is Some || (req.username is Some && req.password is Some)) ==> r is Ok,
        r is Ok ==> r->Ok_0.top_url@ == url_with_params_of(top_url_text(), top_params(req.region, req.is_free_trial, ticket_view(steam))),
        r is Ok ==> (steam is Some <==> r->Ok_0.request.username is None),
        r is Ok ==> (steam is Some <==> r->Ok_0.request.password is None),
        r is Ok && steam is None ==> r->Ok_0.request.username == req.username && r->Ok_0.request.password == req.password,
        r is Ok ==> r->Ok_0.request.otp == req.otp && r->Ok_0.request.region == req.region
            && r->Ok_0.request.is_free_trial == req.is_free_trial,
{
    let mut req = req;
    if steam.is_none() {
        if req.username.is_none() {
            return Err(Error::MissingUsername);
        }
        if req.password.is_none() {
            return Err(Error::MissingPassword);
        }
    } else {
        req.username = None;
        req.password = None;
    }
    match get_oauth_top_url(&req, steam) {
        Ok(top_url) => Ok(LoginStart { request: req, top_url }),
        Err(e) => Err(e),
    }
}

pub open spec fn restart_marker() -> Seq<char> {
    "window.external.user(\"restartup\");"@
}

pub open spec fn contains(s: Seq<char>, pat: Seq<char>) -> bool {
    exists|i: int| occurs_at(s, pat, i)
}

fn contains_text(s: &Vec<char>, pat: &Vec<char>) -> (r: bool)
    ensures
        r == contains(s@, pat@),
{
    let mut i: usize = 0;
    while i < s.len()
        invariant
            i <= s@.len(),
            forall|k: int| 0 <= k < i ==> !occurs_at(s@, pat@, k),
        decreases s@.len() - i,
    {
        if matches_at(s, pat, i) {
            return true;
        }
        i = i + 1;
    }
    if matches_at(s, pat, i) {
        return true;
    }
    assert forall|k: int| !occurs_at(s@, pat@, k) by {
        if occurs_at(s@, pat@, k) {
            assert(k <= i);
        }
    }
    false
}

pub open spec fn ascii_lower(c: char) -> char {
    if 'A' <= c <= 'Z' { ((c as u8) + 32) as char } else { c }
}

/// Whether `m` is `post` in any letter case.
pub open spec fn is_post(m: Seq<char>) -> bool {
    m.len() == 4 && ascii_lower(m[0]) == 'p' && ascii_lower(m[1]) == 'o' && ascii_lower(m[2]) == 's'
        && ascii_lower(m[3]) == 't'
}

fn lower_char(c: char) -> (r: char)
    ensures
        r == ascii_lower(c),
{
    if 'A' <= c && c <= 'Z' {
        ((c as u8) + 32) as char
    } else {
        c
    }
}

fn method_is_post(m: &String) -> (r: bool)
    ensures
        r == is_post(m@),
{
    let cs = chars_of(m.as_str());
    cs.len() == 4 && lower_char(cs[0]) == 'p' && lower_char(cs[1]) == 'o' && lower_char(cs[2]) == 's'
        && lower_char(cs[3]) == 't'
}

pub open spec fn main_form_name() -> Seq<char> {
    "mainForm"@
}

/// Reads the top page: fails on the platform-restart phrase, then wants a
/// form named `mainForm`, whose action, method and fields it returns.
pub fn read_top_page(body: &str, forms: &Vec<HtmlForm>) -> (r: Result<crate::form::FormDescriptor, Error>)
    ensures
        contains(body@, restart_marker()) ==> r is Err && r->Err_0 == Error::Restartup,
        !contains(body@, restart_marker()) && r is Err ==> r->Err_0 == Error::MissingLoginForm,
        r is Ok <==> !contains(body@, restart_marker()) && form_of(forms_view(forms@), main_form_name()) is Some,
        r is Ok ==> r->Ok_0.view() == form_of(forms_view(forms@), main_form_name())->Some_0,
        r is Ok ==> r->Ok_0.fields.wf(),
{
    let b = chars_of(body);
    let marker = chars_of("window.external.user(\"restartup\");");
    if contains_text(&b, &marker) {
        return Err(Error::Restartup);
    }
    match extract_form(forms, "mainForm") {
        Some(f) => Ok(f),
        None => Err(Error::MissingLoginForm),
    }
}

/// Parses the top page's HTML and reads it as `read_top_page` does.
pub fn get_oauth_top(body: &str) -> (r: Result<crate::form::FormDescriptor, Error>)
    ensures
        contains(body@, restart_marker()) ==> r is Err && r->Err_0 == Error::Restartup,
        !contains(body@, restart_marker()) && r is Err ==> r->Err_0 == Error::MissingLoginForm,
        r is Ok <==> !contains(body@, restart_marker()) && form_of(html_forms_of(body@), main_form_name()) is Some,
        r is Ok ==> r->Ok_0.view() == form_of(html_forms_of(body@), main_form_name())->Some_0,
        r is Ok ==> r->Ok_0.fields.wf(),
{
    let forms = html_forms(body);
    read_top_page(body, &forms)
}

/// The credential post: where it goes, the page it comes from, and its fields.
pub struct LoginPost {
    pub url: String,
    pub referer: String,
    pub fields: FormFields,
}

/// The form's fields with the username, the password and the one-time code
/// set where the request holds them.
pub open spec fn posted_fields(
    form: Map<Seq<char>, Seq<char>>,
    username: Option<Seq<char>>,
    password: Option<Seq<char>>,
    otp: Option<Seq<char>>,
) -> Map<Seq<char>, Seq<char>> {
    let a = match username {
        Some(u) => form.insert("sqexid"@, u),
        None => form,
    };
    let b = match password {
        Some(p) => a.insert("password"@, p),
        None => a,
    };
    match otp {
        Some(o) => b.insert("otppw"@, o),
        None => b,
    }
}

pub open spec fn secret_view(p: Option<secure_string::SecureString>) -> Option<Seq<char>> {
    match p {
        Some(s) => Some(secret_of(s)),
        None => None,
    }
}

/// Whether a form can carry the login: its method is `post` and it submits
/// fields.
pub open spec fn login_form_ok(method: Seq<char>, fields: Map<Seq<char>, Seq<char>>) -> bool {
    is_post(method) && fields.len() > 0
}

/// Builds the credential post from the top page's URL and its login form:
/// the form must post fields, its action is resolved against the top page,
/// and the request's credentials join its fields.
pub fn login_post(top_url: &String, form: crate::form::FormDescriptor, req: LoginRequest) -> (r: Result<LoginPost, Error>)
    requires
        form.fields.wf(),
    ensures
        !login_form_ok(form.method@, form.fields.view()) ==> r is Err && r->Err_0 == Error::MissingLoginForm,
        login_form_ok(form.method@, form.fields.view()) ==> (r is Ok <==> url_join_of(top_url@, form.action@) is Some),
        login_form_ok(form.method@, form.fields.view()) && r is Err ==> r->Err_0 == Error::ParseError,
        r is Ok ==> r->Ok_0.url@ == url_join_of(top_url@, form.action@)->Some_0,
        r is Ok ==> r->Ok_0.referer@ == top_url@,
        r is Ok ==> r->Ok_0.fields.wf(),
        r is Ok ==> r->Ok_0.fields.view() == posted_fields(
            form.fields.view(),
            opt_str(req.username),
            secret_view(req.password),
            opt_str(req.otp),
        ),
{
    if !method_is_post(&form.method) || form.fields.len() == 0 {
        return Err(Error::MissingLoginForm);
    }
    let url = match joined_url(top_url.as_str(), form.action.as_str()) {
        Ok(u) => u,
        Err(_) => {
            return Err(Error::ParseError);
        },
    };
    let mut fields = form.fields;
    if let Some(u) = req.username {
        fields.insert(String::from_str("sqexid"), u);
    }
    if let Some(p) = req.password {
        let text = unsealed(&p);
        fields.insert(String::from_str("password"), text);
    }
    if let Some(o) = req.otp {
        fields.insert(String::from_str("otppw"), o);
    }
    Ok(LoginPost { url, referer: top_url.clone(), fields })
}

pub open spec fn has_key(m: Map<Seq<char>, Seq<char>>, key: Seq<char>) -> bool {
    m.contains_key(key)
}

/// Whether the answer has a `region` that reads as a number.
pub open spec fn region_ok(m: Map<Seq<char>, Seq<char>>) -> bool {
    has_key(m, "region"@) && parsed_u8(m["region"@]) is Some
}

/// Reads the answer to the credential post: no callback payload is a login
/// failure, a key the flow needs and lacks is `MissingField`, an `auth`
/// other than `ok` a refusal with the server's `err` text, a bad number a
/// `ParseIntError`, and otherwise the session.
pub fn read_login_response(body: &str) -> (r: Result<LoginResponse, Error>)
    ensures
        launch_params_of(body@) is None ==> r is Err && r->Err_0 == Error::LoginFailure,
        ({
            let m = launch_params_of(body@)->Some_0;
            &&& launch_params_of(body@) is Some && !has_key(m, "auth"@) ==> r is Err
                && r->Err_0 is MissingField && r->Err_0->MissingField_0@ == "auth"@
            &&& launch_params_of(body@) is Some && has_key(m, "auth"@) && m["auth"@] != "ok"@ && !has_key(m, "err"@)
                ==> r is Err && r->Err_0 is MissingField && r->Err_0->MissingField_0@ == "err"@
            &&& launch_params_of(body@) is Some && has_key(m, "auth"@) && m["auth"@] != "ok"@ && has_key(m, "err"@)
                ==> r is Err && r->Err_0 is LoginFailureMessage && r->Err_0->LoginFailureMessage_0@ == m["err"@]
        }),
        ({
            let m = launch_params_of(body@)->Some_0;
            let ok = launch_params_of(body@) is Some && has_key(m, "auth"@) && m["auth"@] == "ok"@;
            &&& ok && !has_key(m, "sid"@) ==> r is Err && r->Err_0 is MissingField && r->Err_0->MissingField_0@ == "sid"@
            &&& ok && has_key(m, "sid"@) && !has_key(m, "region"@) ==> r is Err && r->Err_0 is MissingField
                && r->Err_0->MissingField_0@ == "region"@
            &&& ok && has_key(m, "sid"@) && has_key(m, "region"@) && !region_ok(m) ==> r is Err && r->Err_0 == Error::ParseIntError
            &&& ok && has_key(m, "sid"@) && region_ok(m) && !has_key(m, "terms"@) ==> r is Err && r->Err_0 is MissingField
                && r->Err_0->MissingField_0@ == "terms"@
            &&& ok && has_key(m, "sid"@) && region_ok(m) && has_key(m, "terms"@) && !has_key(m, "playable"@) ==> r is Err
                && r->Err_0 is MissingField && r->Err_0->MissingField_0@ == "playable"@
            &&& ok && has_key(m, "sid"@) && region_ok(m) && has_key(m, "terms"@) && has_key(m, "playable"@) && !has_key(m, "maxex"@)
                ==> r is Err && r->Err_0 is MissingField && r->Err_0->MissingField_0@ == "maxex"@
            &&& ok && has_key(m, "sid"@) && region_ok(m) && has_key(m, "terms"@) && has_key(m, "playable"@) && has_key(m, "maxex"@)
                && parsed_u8(m["maxex"@]) is None ==> r is Err && r->Err_0 == Error::ParseIntError
            &&& r is Ok <==> ok && has_key(m, "sid"@) && region_ok(m) && has_key(m, "terms"@) && has_key(m, "playable"@)
                && has_key(m, "maxex"@) && parsed_u8(m["maxex"@]) is Some
            &&& r is Ok ==> r->Ok_0.session_id@ == m["sid"@]
                && Some(r->Ok_0.region) == parsed_u8(m["region"@])
                && r->Ok_0.terms_accepted == (m["terms"@] != "0"@)
                && r->Ok_0.playable == (m["playable"@] != "0"@)
                && Some(r->Ok_0.max_expansion) == parsed_u8(m["maxex"@])
        }),
{
    let params = match extract_launch_params(body) {
        Some(p) => p,
        None => {
            return Err(Error::LoginFailure);
        },
    };
    let ok = String::from_str("ok");
    let zero = String::from_str("0");
    let auth = match params.get("auth") {
        Some(v) => v,
        None => {
            return Err(Error::MissingField(String::from_str("auth")));
        },
    };
    if *auth != ok {
        return match params.get("err") {
            Some(e) => Err(Error::LoginFailureMessage(e.clone())),
            None => Err(Error::MissingField(String::from_str("err"))),
        };
    }
    let session_id = match params.get("sid") {
        Some(v) => v.clone(),
        None => {
            return Err(Error::MissingField(String::from_str("sid")));
        },
    };
    let region = match params.get("region") {
        Some(v) => match parse_u8(v.as_str()) {
            Some(n) => n,
            None => {
                return Err(Error::ParseIntError);
            },
        },
        None => {
            return Err(Error::MissingField(String::from_str("region")));
        },
    };
    let terms_accepted = match params.get("terms") {
        Some(v) => *v != zero,
        None => {
            return Err(Error::MissingField(String::from_str("terms")));
        },
    };
    let playable = match params.get("playable") {
        Some(v) => *v != zero,
        None => {
            return Err(Error::MissingField(String::from_str("playable")));
        },
    };
    let max_expansion = match params.get("maxex") {
        Some(v) => match parse_u8(v.as_str()) {
            Some(n) => n,
            None => {
                return Err(Error::ParseIntError);
            },
        },
        None => {
            return Err(Error::MissingField(String::from_str("maxex")));
        },
    };
    Ok(LoginResponse { session_id, region, terms_accepted, playable, max_expansion })
}

} // verus!
