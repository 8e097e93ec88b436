use pass_fxa::credential::{
    plan, select_credential, synced_logins, CredentialError, Operation, StoreEntry,
};
use pass_fxa::filter::{Filter, FilterMode};
use pass_fxa::login::{
    name_segment, parent_name_segment, property_any, url_source, ExtractError, LocalLogin,
    ParsedUrl, RemoteLogin,
};
use pass_fxa::reconcile::{delete_jobs, upload_jobs, Job};

fn local(u: &str, p: &str, h: &str, filter: Option<Filter>) -> LocalLogin {
    LocalLogin {
        password: p.to_string(),
        username: u.to_string(),
        hostname: h.to_string(),
        host: None,
        filter,
    }
}

fn remote(id: &str, u: &str, p: &str, h: &str) -> RemoteLogin {
    RemoteLogin {
        id: id.to_string(),
        username: u.to_string(),
        password: p.to_string(),
        hostname: h.to_string(),
    }
}

fn entry(name: &str, login: LocalLogin) -> StoreEntry {
    StoreEntry { name: name.to_string(), login }
}

fn account(name: &str, user: &str, filter: Option<Filter>) -> StoreEntry {
    let mut l = local(user, "secret", "https://firefox.com/", filter);
    l.host = Some("firefox.com".to_string());
    entry(name, l)
}

#[test]
fn marker_values() {
    assert_eq!(Filter::try_from("include"), Ok(Filter::Include));
    assert_eq!(Filter::try_from("exclude"), Ok(Filter::Exclude));
    assert_eq!(Filter::try_from("Include"), Err(()));
    assert_eq!(Filter::try_from(""), Err(()));
}

#[test]
fn mode_folding() {
    assert_eq!(FilterMode::from_markers(&vec![]), FilterMode::NoFilter);
    assert_eq!(FilterMode::from_markers(&vec![None, Some(Filter::Include)]), FilterMode::IncludeOnly);
    assert_eq!(FilterMode::from_markers(&vec![Some(Filter::Exclude), None]), FilterMode::ExcludeOnly);
    assert_eq!(
        FilterMode::from_markers(&vec![Some(Filter::Exclude), None, Some(Filter::Include)]),
        FilterMode::Conflicting
    );
}

#[test]
fn unmarked_eligibility() {
    assert!(FilterMode::NoFilter.is_eligible(None));
    assert!(FilterMode::ExcludeOnly.is_eligible(None));
    assert!(!FilterMode::IncludeOnly.is_eligible(None));
}

#[test]
fn included_eligibility() {
    assert!(FilterMode::NoFilter.is_eligible(Some(Filter::Include)));
    assert!(FilterMode::IncludeOnly.is_eligible(Some(Filter::Include)));
    assert!(FilterMode::ExcludeOnly.is_eligible(Some(Filter::Include)));
    assert!(!FilterMode::Conflicting.is_eligible(Some(Filter::Include)));
}

#[test]
fn excluded_eligibility() {
    assert!(!FilterMode::ExcludeOnly.is_eligible(Some(Filter::Exclude)));
    assert!(!FilterMode::IncludeOnly.is_eligible(Some(Filter::Exclude)));
    assert!(FilterMode::NoFilter.is_eligible(Some(Filter::Exclude)));
}

#[test]
fn name_segments() {
    assert_eq!(name_segment("web/github/alice"), "alice");
    assert_eq!(name_segment("alice"), "alice");
    assert_eq!(parent_name_segment("web/github/alice"), Some("github".to_string()));
    assert_eq!(parent_name_segment("github/alice"), Some("github".to_string()));
    assert_eq!(parent_name_segment("alice"), None);
    assert_eq!(parent_name_segment("/alice"), None);
}

#[test]
fn url_source_choice() {
    assert_eq!(url_source("a/b", Some("https://x.com".to_string())), Some("https://x.com".to_string()));
    assert_eq!(url_source("github.com/me", None), Some("https://github.com".to_string()));
    assert_eq!(url_source("me", None), None);
}

#[test]
fn properties_in_order() {
    let body = b"pw\nuser: third\nusername: second\n".to_vec();
    assert_eq!(property_any(&body, &vec!["login", "username", "user"]), Some("second".to_string()));
    assert_eq!(property_any(&body, &vec!["login"]), None);
    // the first line is the password, never a property
    let body = b"login: x\n".to_vec();
    assert_eq!(property_any(&body, &vec!["login"]), None);
}

#[test]
fn extract_full_secret() {
    let body = b"p1\nlogin: bob\nurl: https://github.com\nfxa: include\n".to_vec();
    let l = LocalLogin::new("web/github/work", &body).unwrap().unwrap();
    assert_eq!(l.password, "p1");
    assert_eq!(l.username, "bob");
    assert_eq!(l.hostname, "https://github.com/");
    assert_eq!(l.host, Some("github.com".to_string()));
    assert_eq!(l.filter, Some(Filter::Include));
}

#[test]
fn extract_fallbacks() {
    let body = b"hunter2\nnote: nothing\n".to_vec();
    let l = LocalLogin::new("github.com/me", &body).unwrap().unwrap();
    assert_eq!(l.password, "hunter2");
    assert_eq!(l.username, "me");
    assert_eq!(l.hostname, "https://github.com/");
    assert_eq!(l.host, Some("github.com".to_string()));
    assert_eq!(l.filter, None);
}

#[test]
fn extract_later_url_key() {
    let body = b"pw\nwebsite: https://a.org/login\nlaunch: https://b.org\n".to_vec();
    let l = LocalLogin::new("x/y", &body).unwrap().unwrap();
    assert_eq!(l.hostname, "https://a.org/login");
    assert_eq!(l.host, Some("a.org".to_string()));
}

#[test]
fn extract_skips_without_directory() {
    let body = b"pw\n".to_vec();
    assert_eq!(LocalLogin::new("lonely", &body), Ok(None));
}

#[test]
fn extract_skips_without_password_line() {
    let body = vec![0xff, 0xfe, b'\n'];
    assert_eq!(LocalLogin::new("a/b", &body), Ok(None));
}

#[test]
fn extract_invalid_url() {
    let body = b"pw\nurl: not a url\n".to_vec();
    assert_eq!(LocalLogin::new("a/b", &body), Err(ExtractError::InvalidUrl));
}

#[test]
fn extract_unknown_marker() {
    let body = b"pw\nurl: https://x.com\nfxa: maybe\n".to_vec();
    assert_eq!(LocalLogin::new("a/b", &body), Err(ExtractError::UnknownFilter));
}

#[test]
fn assemble_from_parts() {
    let parsed = ParsedUrl { text: "https://x.com/".to_string(), host: Some("x.com".to_string()) };
    let l = LocalLogin::assemble("d/name", Some("pw".to_string()), None, Ok(Some(parsed)), None);
    let mut expected = local("name", "pw", "https://x.com/", None);
    expected.host = Some("x.com".to_string());
    assert_eq!(l, Ok(Some(expected)));
    assert_eq!(LocalLogin::assemble("d/name", None, None, Err(()), None), Ok(None));
    assert_eq!(LocalLogin::assemble("d/name", Some("pw".to_string()), None, Ok(None), None), Ok(None));
    assert_eq!(
        LocalLogin::assemble("d/name", Some("pw".to_string()), None, Err(()), None),
        Err(ExtractError::InvalidUrl)
    );
}

#[test]
fn absent_login_is_created() {
    let l = local("u", "p", "https://h.com/", None);
    let r = vec![remote("1", "other", "p", "https://h.com/")];
    assert_eq!(
        upload_jobs(&vec![l], FilterMode::NoFilter, &r),
        vec![Job::Create {
            username: "u".to_string(),
            password: "p".to_string(),
            hostname: "https://h.com/".to_string()
        }]
    );
    let l = local("u", "p", "https://h.com/", None);
    assert_eq!(delete_jobs(&vec![l], &r), vec![]);
}

#[test]
fn equal_login_is_left() {
    let l = local("u", "p", "https://h.com/", None);
    let r = vec![remote("1", "u", "p", "https://h.com/")];
    assert_eq!(upload_jobs(&vec![l], FilterMode::NoFilter, &r), vec![]);
}

#[test]
fn changed_login_is_updated() {
    let l = local("u", "new", "https://h.com/", None);
    let r = vec![remote("1", "u", "old", "https://h.com/"), remote("2", "u", "new", "https://h.com/")];
    assert_eq!(
        upload_jobs(&vec![l], FilterMode::NoFilter, &r),
        vec![Job::Update { id: "1".to_string(), password: "new".to_string() }]
    );
}

#[test]
fn upload_respects_mode() {
    let ls = vec![
        local("a", "p", "https://h.com/", None),
        local("b", "p", "https://h.com/", Some(Filter::Include)),
    ];
    let jobs = upload_jobs(&ls, FilterMode::IncludeOnly, &vec![]);
    assert_eq!(jobs.len(), 1);
    assert_eq!(
        jobs[0],
        Job::Create { username: "b".to_string(), password: "p".to_string(), hostname: "https://h.com/".to_string() }
    );
}

#[test]
fn delete_needs_equal_login() {
    let ls = vec![local("a", "new", "https://x.com/", None), local("b", "p", "https://y.com/", None)];
    let r = vec![remote("1", "a", "old", "https://x.com/"), remote("2", "b", "p", "https://y.com/")];
    assert_eq!(delete_jobs(&ls, &r), vec![Job::Delete { id: "2".to_string() }]);
}

#[test]
fn conflict_yields_nothing() {
    let es = vec![
        account("fxa", "me@mail", None),
        entry("a/x", local("x", "p", "https://a.com/", Some(Filter::Include))),
        entry("b/y", local("y", "p", "https://b.com/", Some(Filter::Exclude))),
    ];
    let r = vec![remote("9", "y", "p", "https://b.com/")];
    assert_eq!(plan(&es, 0, &r, Operation::Upload), vec![]);
    assert_eq!(plan(&es, 0, &r, Operation::Delete), vec![]);
}

#[test]
fn two_account_hosts_are_ambiguous() {
    let es = vec![
        account("fxa/one", "first@mail", None),
        entry("a/x", local("x", "p", "https://a.com/", None)),
        account("fxa/two", "second@mail", None),
    ];
    match select_credential(&es, &None) {
        Err(CredentialError::Ambiguous { candidates }) => assert_eq!(
            candidates,
            vec![
                ("fxa/one".to_string(), "first@mail".to_string()),
                ("fxa/two".to_string(), "second@mail".to_string())
            ]
        ),
        other => panic!("unexpected {:?}", other),
    }
}

#[test]
fn credential_by_host_and_by_name() {
    let es = vec![
        entry("a/x", local("x", "p", "https://a.com/", None)),
        account("fxa/one", "first@mail", None),
    ];
    assert_eq!(select_credential(&es, &None), Ok(1));
    assert_eq!(select_credential(&es, &Some("a/x".to_string())), Ok(0));
    assert_eq!(select_credential(&es, &Some("nope".to_string())), Err(CredentialError::NotFound));
    let es = vec![entry("a/x", local("x", "p", "https://a.com/", None))];
    assert_eq!(select_credential(&es, &None), Err(CredentialError::NotFound));
}

#[test]
fn credential_left_out_unless_included() {
    let es = vec![account("fxa/one", "me", None), entry("a/x", local("x", "p", "https://a.com/", None))];
    let s = synced_logins(&es, 0);
    assert_eq!(s.len(), 1);
    assert_eq!(s[0].username, "x");
    let es = vec![account("fxa/one", "me", Some(Filter::Include)), entry("a/x", local("x", "p", "https://a.com/", None))];
    assert_eq!(synced_logins(&es, 0).len(), 2);
}

#[test]
fn scenario_create_into_empty_remote() {
    let es = vec![
        account("fxa", "me@mail", None),
        entry("github.com/github", local("github", "p1", "https://github.com", None)),
    ];
    assert_eq!(
        plan(&es, 0, &vec![], Operation::Upload),
        vec![Job::Create {
            username: "github".to_string(),
            password: "p1".to_string(),
            hostname: "https://github.com".to_string()
        }]
    );
}

#[test]
fn scenario_update_changed_password() {
    let es = vec![account("fxa", "me@mail", None), entry("x.com/a", local("a", "new", "https://x.com", None))];
    let r = vec![remote("7", "a", "old", "https://x.com")];
    assert_eq!(
        plan(&es, 0, &r, Operation::Upload),
        vec![Job::Update { id: "7".to_string(), password: "new".to_string() }]
    );
}

#[test]
fn scenario_delete_equal_login() {
    let es = vec![account("fxa", "me@mail", None), entry("x.com/a", local("a", "p", "https://x.com", None))];
    let r = vec![remote("9", "a", "p", "https://x.com")];
    assert_eq!(plan(&es, 0, &r, Operation::Delete), vec![Job::Delete { id: "9".to_string() }]);
}

#[test]
fn delete_ignores_upload_filter() {
    let es = vec![
        account("fxa", "me@mail", None),
        entry("x.com/a", local("a", "p", "https://x.com", Some(Filter::Exclude))),
    ];
    let r = vec![remote("9", "a", "p", "https://x.com")];
    assert_eq!(plan(&es, 0, &r, Operation::Upload), vec![]);
    assert_eq!(plan(&es, 0, &r, Operation::Delete), vec![Job::Delete { id: "9".to_string() }]);
}
