use rusty_open::query::{DesktopKind, QueryError};
use rusty_open::resolve::{
    mime_fast_path, fallback_default, decide_default, resolve_entry, resolve_entry_outcome,
    resolve_recorded, DefaultDecision, Outcome, WorldResponses,
};

fn udd() -> String {
    "/home/user/.local/share".to_string()
}

#[test]
fn url_synthesizes_scheme_mime() {
    assert_eq!(
        mime_fast_path(&"https://example.com/page".to_string()),
        Some("x-scheme-handler/https".to_string()),
    );
    assert_eq!(
        mime_fast_path(&"file:///tmp/foo".to_string()),
        Some("x-scheme-handler/file".to_string()),
    );
    assert_eq!(
        mime_fast_path(&"mailto:someone@example.com".to_string()),
        Some("x-scheme-handler/mailto".to_string()),
    );
}

#[test]
fn plain_path_is_not_a_url() {
    assert_eq!(mime_fast_path(&"/tmp/a b.txt".to_string()), None);
    assert_eq!(mime_fast_path(&"relative/path.pdf".to_string()), None);
}

#[test]
fn fallback_table_entries() {
    assert_eq!(fallback_default("application/vnd.microsoft.portable-executable"), Some("wine"));
    assert_eq!(fallback_default("x-scheme-handler/file"), Some("firefox"));
    assert_eq!(fallback_default("text/plain"), None);
    assert_eq!(fallback_default(""), None);
}

#[test]
fn empty_default_falls_back_to_wine_without_entry_lookup() {
    let mime = "application/vnd.microsoft.portable-executable".to_string();
    let resource = "/tmp/setup.exe".to_string();
    let d = decide_default(DesktopKind::Other, &mime, &resource, &udd(), b"");
    // a bare command: ready immediately, no desktop entry file consulted
    match d {
        DefaultDecision::Terminal(Outcome::Ready(rc)) => {
            assert_eq!(rc.program, "wine");
            assert_eq!(rc.args, vec!["/tmp/setup.exe".to_string()]);
            assert_eq!(rc.mime, mime);
            assert_eq!(rc.entry_path, None);
        },
        other => panic!("expected ready wine fallback, got {:?}", other),
    }
}

#[test]
fn empty_default_without_fallback_is_no_default_found() {
    let mime = "text/plain".to_string();
    let resource = "/tmp/notes.txt".to_string();
    let d = decide_default(DesktopKind::Other, &mime, &resource, &udd(), b"\n");
    assert_eq!(
        d,
        DefaultDecision::Terminal(Outcome::NoDefaultFound {
            mime: "text/plain".to_string(),
            resource: "/tmp/notes.txt".to_string(),
        }),
    );
}

#[test]
fn invalid_utf8_default_answer_is_query_failure() {
    let mime = "text/plain".to_string();
    let resource = "/tmp/notes.txt".to_string();
    let d = decide_default(DesktopKind::Other, &mime, &resource, &udd(), &[0xc3, 0x28]);
    assert_eq!(d, DefaultDecision::Terminal(Outcome::QueryFailure(QueryError::InvalidUtf8)));
}

#[test]
fn desktop_handler_gets_both_candidate_paths() {
    let mime = "text/html".to_string();
    let resource = "/tmp/page.html".to_string();
    let d = decide_default(DesktopKind::Other, &mime, &resource, &udd(), b"firefox.desktop\n");
    assert_eq!(
        d,
        DefaultDecision::NeedEntry {
            handler: "firefox.desktop".to_string(),
            system_path: "/usr/share/applications/firefox.desktop".to_string(),
            user_path: "/home/user/.local/share/applications/firefox.desktop".to_string(),
        },
    );
}

#[test]
fn bare_handler_is_ready_with_raw_resource() {
    let mime = "text/html".to_string();
    let resource = "/tmp/page.html".to_string();
    let d = decide_default(DesktopKind::Other, &mime, &resource, &udd(), b"surf\n");
    match d {
        DefaultDecision::Terminal(Outcome::Ready(rc)) => {
            assert_eq!(rc.program, "surf");
            assert_eq!(rc.args, vec!["/tmp/page.html".to_string()]);
            assert_eq!(rc.entry_path, None);
        },
        other => panic!("expected bare command, got {:?}", other),
    }
}

#[test]
fn entry_with_exec_resolves_through_tokenizer() {
    let o = resolve_entry(
        DesktopKind::Other,
        &"text/html".to_string(),
        &"/tmp/a b.html".to_string(),
        &"firefox.desktop".to_string(),
        &"/usr/share/applications/firefox.desktop".to_string(),
        "[Desktop Entry]\nName=Firefox\nExec=firefox \"%u\" --new-tab\n",
    );
    match o {
        Outcome::Ready(rc) => {
            assert_eq!(rc.program, "firefox");
            assert_eq!(rc.args, vec!["/tmp/a b.html".to_string(), "--new-tab".to_string()]);
            assert_eq!(rc.entry_path, Some("/usr/share/applications/firefox.desktop".to_string()));
        },
        other => panic!("expected ready command, got {:?}", other),
    }
}

#[test]
fn unterminated_quote_in_exec_is_malformed_exec() {
    let o = resolve_entry(
        DesktopKind::Other,
        &"text/html".to_string(),
        &"/tmp/x.html".to_string(),
        &"app.desktop".to_string(),
        &"/usr/share/applications/app.desktop".to_string(),
        "[Desktop Entry]\nExec=app \"unterminated\n",
    );
    assert_eq!(o, Outcome::MalformedExec("app \"unterminated".to_string()));
}

#[test]
fn entry_without_exec_falls_back_to_handler_id() {
    let o = resolve_entry(
        DesktopKind::Other,
        &"text/html".to_string(),
        &"/tmp/x.html".to_string(),
        &"app.desktop".to_string(),
        &"/usr/share/applications/app.desktop".to_string(),
        "[Desktop Entry]\nName=App\n",
    );
    match o {
        Outcome::Ready(rc) => {
            assert_eq!(rc.program, "app.desktop");
            assert_eq!(rc.args, vec!["/tmp/x.html".to_string()]);
        },
        other => panic!("expected handler-id fallback, got {:?}", other),
    }
}

#[test]
fn first_readable_candidate_wins() {
    let o = resolve_entry_outcome(
        DesktopKind::Other,
        &"text/html".to_string(),
        &"/tmp/x.html".to_string(),
        &"app.desktop".to_string(),
        &"/usr/share/applications/app.desktop".to_string(),
        &"/home/user/.local/share/applications/app.desktop".to_string(),
        &None,
        &Some("[Desktop Entry]\nExec=user-app %f\n".to_string()),
    );
    match o {
        Outcome::Ready(rc) => {
            assert_eq!(rc.program, "user-app");
            assert_eq!(
                rc.entry_path,
                Some("/home/user/.local/share/applications/app.desktop".to_string()),
            );
        },
        other => panic!("expected user candidate, got {:?}", other),
    }
}

#[test]
fn handler_absent_everywhere_is_parse_failure() {
    let o = resolve_entry_outcome(
        DesktopKind::Other,
        &"text/html".to_string(),
        &"/tmp/x.html".to_string(),
        &"ghost.desktop".to_string(),
        &"/usr/share/applications/ghost.desktop".to_string(),
        &"/home/user/.local/share/applications/ghost.desktop".to_string(),
        &None,
        &None,
    );
    assert_eq!(
        o,
        Outcome::ParseFailure {
            handler: "ghost.desktop".to_string(),
            path: "/home/user/.local/share/applications/ghost.desktop".to_string(),
        },
    );
}

#[test]
fn locate_failure_outcome_is_not_no_default_found() {
    let w = WorldResponses {
        mime_output: b"text/html\n".to_vec(),
        default_output: b"ghost.desktop\n".to_vec(),
        system_entry: None,
        user_entry: None,
    };
    let o = resolve_recorded(DesktopKind::Other, &"/tmp/x.html".to_string(), &udd(), &w);
    assert!(matches!(o, Outcome::ParseFailure { .. }), "got {:?}", o);
}

#[test]
fn full_pipeline_happy_path_for_url() {
    let w = WorldResponses {
        // the MIME query's output is garbage on purpose: a URL must not consult it
        mime_output: vec![0xff],
        default_output: b"browser.desktop\n".to_vec(),
        system_entry: Some("[Desktop Entry]\nExec=browser %u\n".to_string()),
        user_entry: None,
    };
    let o = resolve_recorded(DesktopKind::Other, &"https://example.com".to_string(), &udd(), &w);
    match o {
        Outcome::Ready(rc) => {
            assert_eq!(rc.program, "browser");
            assert_eq!(rc.args, vec!["https://example.com".to_string()]);
            assert_eq!(rc.mime, "x-scheme-handler/https");
            assert_eq!(rc.entry_path, Some("/usr/share/applications/browser.desktop".to_string()));
        },
        other => panic!("expected ready browser, got {:?}", other),
    }
}

#[test]
fn full_pipeline_mime_query_failure() {
    let w = WorldResponses {
        mime_output: vec![0xff],
        default_output: Vec::new(),
        system_entry: None,
        user_entry: None,
    };
    let o = resolve_recorded(DesktopKind::Other, &"/tmp/x".to_string(), &udd(), &w);
    assert_eq!(o, Outcome::QueryFailure(QueryError::InvalidUtf8));
    let w2 = WorldResponses {
        mime_output: b" \n".to_vec(),
        default_output: Vec::new(),
        system_entry: None,
        user_entry: None,
    };
    let o2 = resolve_recorded(DesktopKind::Other, &"/tmp/x".to_string(), &udd(), &w2);
    assert_eq!(o2, Outcome::QueryFailure(QueryError::Empty));
}

#[test]
fn resolution_is_idempotent_on_identical_responses() {
    let make_world = || WorldResponses {
        mime_output: b"text/html\n".to_vec(),
        default_output: b"browser.desktop\n".to_vec(),
        system_entry: Some("[Desktop Entry]\nExec=browser \"%u\" --flag\n".to_string()),
        user_entry: Some("[Desktop Entry]\nExec=other %u\n".to_string()),
    };
    let resource = "/tmp/page.html".to_string();
    let o1 = resolve_recorded(DesktopKind::Other, &resource, &udd(), &make_world());
    let o2 = resolve_recorded(DesktopKind::Other, &resource, &udd(), &make_world());
    assert_eq!(o1, o2);
    match o1 {
        Outcome::Ready(rc) => {
            assert_eq!(rc.program, "browser");
            assert_eq!(rc.args, vec!["/tmp/page.html".to_string(), "--flag".to_string()]);
        },
        other => panic!("expected ready command, got {:?}", other),
    }
}
