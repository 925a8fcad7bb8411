use ntucool::assignments::Timestamp;
use ntucool::client::{build_url, csrf_token, is_unauthorized, parse_link_next, SessionState};
use ntucool::config::{find_config_file, Config, WriteLevel};
use ntucool::credentials::{command_password, CommandOutcome, Credentials, CredentialsRead, PasswordSource};
use ntucool::error::Error;
use ntucool::paths::{
    all_enrolments_cache_path, courses_cache_path, credentials_path, mcp_files_cache_dir,
    mcp_publish_dir, mcp_text_cache_dir, session_path, XdgDirs,
};
use ntucool::saml::{
    extract_cookies, parse_adfs_form, parse_saml_assertion, SamlLogin, SamlNext, SamlReply,
    SamlRequest,
};
use ntucool::session::{load_session, Session, SessionRead};

fn dirs() -> XdgDirs {
    XdgDirs::resolve(None, Some("/data".to_string()), None, "/home/u")
}

// ───────────────────────────── config and paths ─────────────────────────────

#[test]
fn write_level_parses_names_and_ordinals() {
    assert_eq!(WriteLevel::parse(" Guarded "), Some(WriteLevel::Guarded));
    assert_eq!(WriteLevel::parse("0"), Some(WriteLevel::Off));
    assert_eq!(WriteLevel::parse("none"), Some(WriteLevel::Off));
    assert_eq!(WriteLevel::parse("3"), Some(WriteLevel::Unguarded));
    assert_eq!(WriteLevel::parse("SAFE"), Some(WriteLevel::Safe));
    assert_eq!(WriteLevel::parse("4"), None);
    for l in [WriteLevel::Off, WriteLevel::Safe, WriteLevel::Guarded, WriteLevel::Unguarded] {
        assert_eq!(WriteLevel::parse(l.as_str()), Some(l));
        assert_eq!(WriteLevel::parse(&l.as_str().to_uppercase()), Some(l));
        assert!(["none", "safe", "guarded", "unguarded"].contains(&l.as_str()));
    }
    assert_eq!(Config::new().write_level, WriteLevel::Off);
}

#[test]
fn config_candidates_walk_up_to_the_root() {
    assert_eq!(
        find_config_file("/home/u/proj"),
        vec!["/home/u/proj/.ntucool.json", "/home/u/.ntucool.json", "/home/.ntucool.json", "/.ntucool.json"]
    );
}

#[test]
fn xdg_paths() {
    let d = dirs();
    assert_eq!(d.config_home, "/home/u/.config");
    assert_eq!(d.data_home, "/data");
    assert_eq!(d.cache_home, "/home/u/.cache");
    assert_eq!(credentials_path(&d), "/home/u/.config/ntucool/credentials.json");
    assert_eq!(session_path(&d), "/data/ntucool/session.json");
    assert_eq!(courses_cache_path(&d), "/home/u/.cache/ntucool/courses.json");
    assert_eq!(all_enrolments_cache_path(&d), "/home/u/.cache/ntucool/courses-all.json");
    assert_eq!(mcp_files_cache_dir(&d), "/home/u/.cache/cool-mcp/cache");
    assert_eq!(mcp_text_cache_dir(&d), "/home/u/.cache/cool-mcp/text");
    assert_eq!(mcp_publish_dir(&d), "/data/cool-mcp/files");
}

// ───────────────────────────── credentials ─────────────────────────────

fn creds(password: Option<&str>, cmd: Option<&str>) -> Credentials {
    Credentials {
        username: "b12345678".to_string(),
        password: password.map(str::to_string),
        password_cmd: cmd.map(str::to_string),
    }
}

#[test]
fn load_credentials_outcomes() {
    match Credentials::load(&dirs(), CredentialsRead::Unreadable) {
        Err(Error::NoCredentials(p)) => assert_eq!(p, "/home/u/.config/ntucool/credentials.json"),
        other => panic!("{other:?}"),
    }
    match Credentials::load(&dirs(), CredentialsRead::Malformed("bad json".to_string())) {
        Err(Error::Auth(m)) => assert_eq!(m, "bad json"),
        other => panic!("{other:?}"),
    }
    assert!(Credentials::load(&dirs(), CredentialsRead::Parsed(creds(Some("pw"), None))).is_ok());
}

#[test]
fn password_sources() {
    assert!(matches!(creds(Some("pw"), None).password_source(), Ok(PasswordSource::Plain(p)) if p == "pw"));
    assert!(matches!(creds(None, Some("pass show cool")).password_source(), Ok(PasswordSource::Command(c)) if c == "pass show cool"));
    assert!(matches!(creds(Some(""), None).password_source(), Err(Error::PasswordCmd(m)) if m == "password field is empty"));
    assert!(matches!(creds(None, None).password_source(), Err(Error::Auth(_))));
    match creds(None, Some("echo TODO")).password_source() {
        Err(Error::PasswordCmd(m)) => assert_eq!(
            m,
            "password_cmd looks like a placeholder (\"echo TODO\"); run `cool login` to set a real command or `cool logout --purge` to clear it"
        ),
        other => panic!("{other:?}"),
    }
}

fn exited(success: bool, stdout: &str) -> CommandOutcome {
    CommandOutcome::Exited {
        success,
        status: "exit status: 1".to_string(),
        stdout: stdout.to_string(),
        stderr: " boom \n".to_string(),
    }
}

#[test]
fn command_password_outcomes() {
    assert_eq!(command_password("c", exited(true, " s3cret\n")).unwrap(), "s3cret");
    match command_password("c", exited(false, "")) {
        Err(Error::PasswordCmd(m)) => assert_eq!(m, "command `c` exited with exit status: 1 (stderr: boom)"),
        other => panic!("{other:?}"),
    }
    match command_password("c", exited(true, "  \n")) {
        Err(Error::PasswordCmd(m)) => assert_eq!(m, "password_cmd succeeded but produced no output"),
        other => panic!("{other:?}"),
    }
    match command_password("c", exited(true, "todo: fill in")) {
        Err(Error::PasswordCmd(m)) => assert_eq!(
            m,
            "password_cmd output \"todo: fill in\" looks like a placeholder; refusing to send to ADFS"
        ),
        other => panic!("{other:?}"),
    }
    match command_password("c", CommandOutcome::SpawnFailed("no sh".to_string())) {
        Err(Error::PasswordCmd(m)) => assert_eq!(m, "no sh"),
        other => panic!("{other:?}"),
    }
}

#[test]
fn error_messages() {
    assert_eq!(Error::SessionExpired.message(), "Session expired, please run `cool login`");
    assert_eq!(Error::Auth("x".to_string()).message(), "Authentication error: x");
    assert_eq!(Error::NoCredentials("/p".to_string()).message(), "No credentials found at /p");
    assert_eq!(Error::Io("disk".to_string()).message(), "IO error: disk");
}

// ───────────────────────────── session and client ─────────────────────────────

fn session() -> Session {
    Session::new(
        "https://cool.ntu.edu.tw".to_string(),
        vec![
            ("_normandy_session".to_string(), "abc".to_string()),
            ("_csrf_token".to_string(), "a%2Bb%3D".to_string()),
        ],
        Timestamp { secs: 1_000_000, nanos: 0 },
    )
}

#[test]
fn session_cookies_and_age() {
    let s = session();
    assert_eq!(s.cookie_header(), "_normandy_session=abc; _csrf_token=a%2Bb%3D");
    assert_eq!(s.cookie("_normandy_session").as_deref(), Some("abc"));
    assert_eq!(s.cookie("missing"), None);
    assert_eq!(s.age_hours(Timestamp { secs: 1_000_000 + 5 * 3600 + 10, nanos: 0 }), 5);
    assert!(!s.is_likely_expired(Timestamp { secs: 1_000_000 + 24 * 3600, nanos: 0 }));
    assert!(s.is_likely_expired(Timestamp { secs: 1_000_000 + 24 * 3600, nanos: 1 }));
    assert!(!s.is_likely_expired(s.created_at));
}

#[test]
fn session_loading() {
    assert!(matches!(load_session(SessionRead::Unreadable("gone".to_string())), Err(Error::SessionLoad(m)) if m == "gone"));
    assert!(matches!(load_session(SessionRead::Malformed("eof".to_string())), Err(Error::SessionLoad(m)) if m == "eof"));
    assert!(load_session(SessionRead::Parsed(session())).is_ok());
}

#[test]
fn client_urls_and_tokens() {
    let s = session();
    assert_eq!(build_url(&s, "/api/v1/courses"), "https://cool.ntu.edu.tw/api/v1/courses");
    assert_eq!(build_url(&s, "https://other/x"), "https://other/x");
    assert_eq!(csrf_token(&s).as_deref(), Some("a+b="));
    assert!(is_unauthorized(Some(401)) && !is_unauthorized(Some(403)) && !is_unauthorized(None));
}

#[test]
fn link_header_next_page() {
    let link = "<https://c/api?page=1>; rel=\"current\", <https://c/api?page=2>; rel=\"next\", <https://c/api?page=9>; rel=\"last\"";
    assert_eq!(parse_link_next(link).as_deref(), Some("https://c/api?page=2"));
    assert_eq!(parse_link_next("<https://c/api?page=1>; rel=\"first\""), None);
    // Only the first part naming the next page is read.
    assert_eq!(parse_link_next("<u1>; rel=\"next\", >bad<; rel=\"next\"").as_deref(), Some("u1"));
}

#[test]
fn relogin_happens_once() {
    let mut st = SessionState { session: None, gen: 0 };
    assert!(st.needs_relogin(0));
    st.install(session());
    assert_eq!(st.gen, 1);
    // a caller that saw generation 0 sees the fresh session and does not log in again
    assert!(!st.needs_relogin(0));
    assert!(st.needs_relogin(1));
}

// ───────────────────────────── SAML login ─────────────────────────────

const ADFS_PAGE: &str = r#"<html><body>
<form id="MainForm" method="post" action="/adfs/ls/?SAMLRequest=abc%3D&amp;RelayState=xyz">
<input type="hidden" name="__VIEWSTATE" value="v1"/>
<input type="text" name="ctl00$ContentPlaceHolder1$UsernameTextBox"/>
<input type="password" name="ctl00$ContentPlaceHolder1$PasswordTextBox"/>
<input type="submit" name="ctl00$ContentPlaceHolder1$SubmitButton" value="Login"/>
</form></body></html>"#;

const SAML_PAGE: &str = r#"<html><body><form method="post" action="https://cool.ntu.edu.tw/login/saml">
<input type="hidden" name="SAMLResponse" value="PHNhbWw+"/>
<input type="hidden" name="RelayState" value="xyz"/>
</form></body></html>"#;

#[test]
fn adfs_form_is_parsed() {
    let f = parse_adfs_form(ADFS_PAGE).unwrap();
    assert_eq!(f.action, "https://adfs.ntu.edu.tw/adfs/ls/?SAMLRequest=abc%3D&RelayState=xyz");
    assert_eq!(
        f.query_params,
        vec![("SAMLRequest".to_string(), "abc=".to_string()), ("RelayState".to_string(), "xyz".to_string())]
    );
    assert_eq!(f.username_field, "ctl00$ContentPlaceHolder1$UsernameTextBox");
    assert_eq!(f.password_field, "ctl00$ContentPlaceHolder1$PasswordTextBox");
    let mut hidden = f.hidden_fields.clone();
    hidden.sort();
    assert_eq!(
        hidden,
        vec![
            ("__VIEWSTATE".to_string(), "v1".to_string()),
            ("ctl00$ContentPlaceHolder1$SubmitButton".to_string(), "Login".to_string()),
        ]
    );
}

#[test]
fn adfs_form_errors() {
    assert!(matches!(parse_adfs_form("<html></html>"), Err(Error::Auth(m)) if m == "MainForm not found in ADFS page"));
    assert!(matches!(parse_adfs_form("<form id=\"MainForm\"></form>"), Err(Error::Auth(m)) if m == "form action not found"));
    assert!(matches!(
        parse_adfs_form("<form id=\"MainForm\" action=\"/x\"><input type=\"text\" name=\"u\"/></form>"),
        Err(Error::Auth(m)) if m == "Could not find username/password fields in ADFS form"
    ));
}

#[test]
fn saml_assertion_is_parsed() {
    let (action, data) = parse_saml_assertion(SAML_PAGE).unwrap();
    assert_eq!(action, "https://cool.ntu.edu.tw/login/saml");
    assert!(data.contains(&("SAMLResponse".to_string(), "PHNhbWw+".to_string())));
    assert!(matches!(parse_saml_assertion("<p>nothing</p>"), Err(Error::Auth(m)) if m == "No form in SAML response (invalid credentials?)"));
    let wrong = "<form action=\"/x\"><input name=\"a\" value=\"b\"/></form>The user name or password is incorrect";
    assert!(matches!(parse_saml_assertion(wrong), Err(Error::Auth(m)) if m == "Login failed: incorrect username or password"));
}

#[test]
fn cookies_from_set_cookie_headers() {
    let headers = vec![
        Some("_normandy_session=abc; path=/; HttpOnly".to_string()),
        Some("log_session_id=1; secure".to_string()),
        Some("_normandy_session=def; path=/".to_string()),
    ];
    let c = extract_cookies(&headers).unwrap();
    assert_eq!(c, vec![("_normandy_session".to_string(), "def".to_string()), ("log_session_id".to_string(), "1".to_string())]);
    assert!(matches!(extract_cookies(&vec![]), Err(Error::Auth(m)) if m == "No cookies received from Canvas (login may have failed)"));
    assert!(matches!(extract_cookies(&vec![None]), Err(Error::Auth(m)) if m == "invalid cookie header"));
}

#[test]
fn saml_login_walks_through_its_stages() {
    let (mut login, first) = SamlLogin::start("b12345678".to_string(), "pw".to_string());
    assert!(matches!(first, SamlRequest::FetchRedirect { ref url, ref referer }
        if url == "https://cool.ntu.edu.tw/login/saml" && referer == "https://cool.ntu.edu.tw/login/portal"));
    let next = login.step(SamlReply::Location(Some("https://adfs.ntu.edu.tw/adfs/ls/?x".to_string()))).unwrap();
    assert!(matches!(next, SamlNext::Send(SamlRequest::FetchAdfs(ref u)) if u == "https://adfs.ntu.edu.tw/adfs/ls/?x"));
    let next = login.step(SamlReply::Body(ADFS_PAGE.to_string())).unwrap();
    match next {
        SamlNext::Send(SamlRequest::PostCredentials { url, query, form }) => {
            assert_eq!(url, "https://adfs.ntu.edu.tw/adfs/ls/");
            assert_eq!(query.len(), 2);
            assert!(form.contains(&("ctl00$ContentPlaceHolder1$UsernameTextBox".to_string(), "b12345678".to_string())));
            assert!(form.contains(&("ctl00$ContentPlaceHolder1$PasswordTextBox".to_string(), "pw".to_string())));
        }
        other => panic!("{other:?}"),
    }
    let next = login.step(SamlReply::Body(SAML_PAGE.to_string())).unwrap();
    assert!(matches!(next, SamlNext::Send(SamlRequest::PostAssertion { ref url, .. }) if url == "https://cool.ntu.edu.tw/login/saml"));
    let done = login.step(SamlReply::SetCookies(vec![Some("_normandy_session=abc; path=/".to_string())])).unwrap();
    assert!(matches!(done, SamlNext::Done(ref c) if c.len() == 1));
}

#[test]
fn saml_login_failures_name_their_stage() {
    let (mut login, _) = SamlLogin::start("u".to_string(), "p".to_string());
    assert!(matches!(login.step(SamlReply::Location(None)), Err(Error::Auth(m)) if m == "No redirect from /login/saml"));
    let (mut login, _) = SamlLogin::start("u".to_string(), "p".to_string());
    let r = login.step(SamlReply::Failed { reading_body: false, message: "timeout".to_string() });
    assert!(matches!(r, Err(Error::Auth(m)) if m == "SAML redirect: timeout"));
}
