use scribr::config::{read_from_path, Config};
use scribr::github::{
    auth_start, auth_step, device_code_request, gh_create_scribr_gist, gh_fetch_scribr_gist,
    gh_file_requests, gh_pull_gist_files, gh_push_gist_files, gh_search_existing_scribr_gist,
    send_access_code_request, AuthAction, AuthEvent, AuthState, Method, RequestBody,
};
use scribr::model::{
    File, FileData, GhAccessResponse, GhDeviceCodeResponse, GhGistResponse, Owner, RemoteSettings,
    Settings, SCRIBR_CONFIG_FILE_NAME,
};
use scribr::sync::{
    backup_notes, get_notebook_path, get_scribr_config_file, get_scribr_home_dir, init, init_settings,
    init_step, linked_gist_id, restore_action, restore_notes, InitEvent, InitState, InitStep,
    RestoreAction, SyncError,
};

fn owner() -> Owner {
    let s = || "x".to_string();
    Owner {
        login: s(),
        id: 1,
        node_id: s(),
        avatar_url: s(),
        gravatar_id: s(),
        url: s(),
        html_url: s(),
        followers_url: s(),
        following_url: s(),
        gists_url: s(),
        starred_url: s(),
        subscriptions_url: s(),
        organizations_url: s(),
        repos_url: s(),
        events_url: s(),
        received_events_url: s(),
        owner_type: "User".to_string(),
        site_admin: false,
    }
}

fn gist(id: &str, files: &[&str]) -> GhGistResponse {
    let s = || "x".to_string();
    GhGistResponse {
        url: s(),
        forks_url: s(),
        commits_url: s(),
        id: id.to_string(),
        node_id: s(),
        git_pull_url: s(),
        git_push_url: s(),
        html_url: format!("https://gist.github.com/{}", id),
        files: files
            .iter()
            .map(|f| {
                (
                    f.to_string(),
                    FileData {
                        filename: f.to_string(),
                        file_type: "text/plain".to_string(),
                        language: "Text".to_string(),
                        raw_url: format!("https://raw/{}/{}", id, f),
                        size: 1,
                    },
                )
            })
            .collect(),
        public: false,
        created_at: s(),
        updated_at: s(),
        description: s(),
        comments: 0,
        user: None,
        comments_url: s(),
        owner: owner(),
        truncated: false,
    }
}

fn linked(id: Option<&str>) -> Settings {
    let mut s = Settings::default();
    s.remote = Some(RemoteSettings { gist_id: id.map(|i| i.to_string()) });
    s
}

fn entries(names: &[&str]) -> Vec<(String, String)> {
    names.iter().map(|n| (n.to_string(), format!("content of {}", n))).collect()
}

#[test]
fn restore_absent_file_is_written() {
    assert_eq!(restore_action("notes.txt", false, false, false), RestoreAction::Overwrite);
    assert_eq!(restore_action(SCRIBR_CONFIG_FILE_NAME, false, false, false), RestoreAction::Overwrite);
}

#[test]
fn restore_present_file_without_force_is_kept() {
    assert_eq!(restore_action("notes.txt", true, false, false), RestoreAction::KeepExisting);
    assert_eq!(restore_action("notes.txt", true, false, true), RestoreAction::KeepExisting);
}

#[test]
fn restore_present_file_with_force_is_overwritten() {
    assert_eq!(restore_action("notes.txt", true, true, false), RestoreAction::Overwrite);
}

#[test]
fn restore_present_settings_without_flags_is_kept() {
    assert_eq!(restore_action(SCRIBR_CONFIG_FILE_NAME, true, false, false), RestoreAction::KeepSettings);
}

#[test]
fn restore_present_settings_with_include_settings_is_overwritten() {
    assert_eq!(restore_action(SCRIBR_CONFIG_FILE_NAME, true, false, true), RestoreAction::Overwrite);
}

#[test]
fn restore_present_settings_with_force_is_overwritten() {
    assert_eq!(restore_action(SCRIBR_CONFIG_FILE_NAME, true, true, false), RestoreAction::Overwrite);
    assert_eq!(restore_action(SCRIBR_CONFIG_FILE_NAME, true, true, true), RestoreAction::Overwrite);
}

#[test]
fn restore_plan_follows_each_file() {
    let files = vec![
        ("notes.txt".to_string(), File::from("n".to_string())),
        (SCRIBR_CONFIG_FILE_NAME.to_string(), File::from("c".to_string())),
        ("other.txt".to_string(), File::from("o".to_string())),
    ];
    let plan = restore_notes(&linked(Some("g")), false, false).unwrap();
    assert_eq!(plan.gist_id, "g");
    let actions = plan.actions(&files, &vec![true, true, false]);
    assert_eq!(actions, vec![RestoreAction::KeepExisting, RestoreAction::KeepSettings, RestoreAction::Overwrite]);
}

#[test]
fn restore_needs_a_linked_gist() {
    assert_eq!(restore_notes(&Settings::default(), true, true).err(), Some(SyncError::NotLinked));
    assert_eq!(restore_notes(&linked(None), false, false).err(), Some(SyncError::NotLinked));
}

fn config_text(step: &InitStep) -> String {
    match step {
        InitStep::Serialise(settings) => match &settings.remote {
            Some(remote) => format!("linked:{}", remote.gist_id.clone().unwrap_or_default()),
            None => "unlinked".to_string(),
        },
        _ => panic!("expected settings to write out"),
    }
}

#[test]
fn init_aborts_on_existing_dir_without_force() {
    let (state, step) = init(true, false, false, None);
    assert!(matches!(state, InitState::Aborted));
    assert!(matches!(step, InitStep::Abort));
    assert!(matches!(init(true, false, true, None).1, InitStep::Abort));
    assert!(matches!(init(true, true, true, None).1, InitStep::CreateDir));
    assert!(matches!(init(false, false, false, None).1, InitStep::CreateDir));
}

#[test]
fn init_without_gist_writes_default_settings() {
    let (state, _) = init(false, false, true, None);
    let (state, step) = init_step(state, InitEvent::DirCreated);
    assert_eq!(config_text(&step), "unlinked");
    let (state, step) = init_step(state, InitEvent::Serialised("yaml".to_string()));
    match &step {
        InitStep::WriteFiles(files) => {
            assert_eq!(files.len(), 1);
            assert_eq!(files[0].0, SCRIBR_CONFIG_FILE_NAME);
            assert_eq!(files[0].1.content, "yaml");
        }
        _ => panic!("expected files to write"),
    }
    let (_, step) = init_step(state, InitEvent::Written);
    assert!(matches!(step, InitStep::Done));
}

#[test]
fn init_reuses_the_gist_it_finds_and_pushes_before_writing() {
    let (state, _) = init(false, false, false, None);
    let (state, step) = init_step(state, InitEvent::DirCreated);
    assert!(matches!(step, InitStep::Authenticate));
    let (state, step) = init_step(state, InitEvent::Token("tok".to_string()));
    match &step {
        InitStep::Send(req) => assert_eq!(req.url, "https://api.github.com/gists"),
        _ => panic!("expected the listing"),
    }
    let gists = vec![gist("one", &["x.txt"]), gist("two", &[SCRIBR_CONFIG_FILE_NAME])];
    let (state, step) = init_step(state, InitEvent::Listed(Some(gists)));
    assert_eq!(config_text(&step), "linked:two");
    let (state, step) = init_step(state, InitEvent::Serialised("linked yaml".to_string()));
    match &step {
        InitStep::Send(req) => {
            assert_eq!(req.method, Method::Patch);
            assert_eq!(req.url, "https://api.github.com/gists/two");
        }
        _ => panic!("expected the push"),
    }
    let (state, step) = init_step(state, InitEvent::Pushed(true));
    match &step {
        InitStep::WriteFiles(files) => assert_eq!(files[0].1.content, "linked yaml"),
        _ => panic!("expected files to write"),
    }
    let (_, step) = init_step(state, InitEvent::Written);
    assert!(matches!(step, InitStep::Done));
}

#[test]
fn init_creates_one_gist_when_none_is_found() {
    let (state, _) = init(false, false, false, Some("missing".to_string()));
    let (state, _) = init_step(state, InitEvent::DirCreated);
    let (state, step) = init_step(state, InitEvent::Token("tok".to_string()));
    match &step {
        InitStep::Send(req) => assert_eq!(req.url, "https://api.github.com/gists/missing"),
        _ => panic!("expected the fetch"),
    }
    let (state, step) = init_step(state, InitEvent::Found(None));
    assert_eq!(config_text(&step), "unlinked");
    let (state, step) = init_step(state, InitEvent::Serialised("default yaml".to_string()));
    match &step {
        InitStep::Send(req) => {
            assert_eq!(req.method, Method::Post);
            assert_eq!(req.url, "https://api.github.com/gists");
        }
        _ => panic!("expected the creation"),
    }
    let (state, step) = init_step(state, InitEvent::Created(Some(gist("new", &[SCRIBR_CONFIG_FILE_NAME]))));
    assert_eq!(config_text(&step), "linked:new");
    let (_, step) = init_step(state, InitEvent::Serialised("y".to_string()));
    assert!(matches!(step, InitStep::Send(_)));
}

#[test]
fn init_stops_when_the_push_fails() {
    let (state, _) = init(false, true, false, Some("g".to_string()));
    let (state, _) = init_step(state, InitEvent::DirCreated);
    let (state, _) = init_step(state, InitEvent::Token("tok".to_string()));
    let (state, _) = init_step(state, InitEvent::Found(Some(gist("g", &[]))));
    let (state, _) = init_step(state, InitEvent::Serialised("y".to_string()));
    let (state, step) = init_step(state, InitEvent::Pushed(false));
    assert!(matches!(state, InitState::Failed));
    assert!(matches!(step, InitStep::Fail));
}

#[test]
fn init_settings_name_the_gist() {
    let s = init_settings(Some("abc"));
    assert_eq!(s.remote.unwrap().gist_id.unwrap(), "abc");
    assert!(init_settings(None).remote.is_none());
    assert_eq!(init_settings(None).default_notebook, "notes.txt");
}

#[test]
fn backup_leaves_settings_out_unless_asked() {
    let plan = backup_notes(&linked(Some("g1")), entries(&["notes.txt", SCRIBR_CONFIG_FILE_NAME, "b.txt"]), false).unwrap();
    assert_eq!(plan.gist_id, "g1");
    let names: Vec<&str> = plan.files.iter().map(|(n, _)| n.as_str()).collect();
    assert_eq!(names, vec!["notes.txt", "b.txt"]);
    assert_eq!(plan.files[1].1.content, "content of b.txt");
}

#[test]
fn backup_with_settings_sends_everything() {
    let plan = backup_notes(&linked(Some("g1")), entries(&["notes.txt", SCRIBR_CONFIG_FILE_NAME]), true).unwrap();
    let names: Vec<&str> = plan.files.iter().map(|(n, _)| n.as_str()).collect();
    assert_eq!(names, vec!["notes.txt", SCRIBR_CONFIG_FILE_NAME]);
}

#[test]
fn backup_needs_a_linked_gist() {
    assert_eq!(backup_notes(&Settings::default(), entries(&["a"]), false).err(), Some(SyncError::NotLinked));
    assert_eq!(backup_notes(&linked(None), entries(&["a"]), false).err(), Some(SyncError::NotLinked));
    assert_eq!(linked_gist_id(&linked(Some("z"))).unwrap(), "z");
}

#[test]
fn paths_live_under_home() {
    assert_eq!(get_scribr_home_dir("/home/ann"), "/home/ann/.scribr");
    assert_eq!(get_scribr_home_dir("/home/ann/"), "/home/ann/.scribr");
    assert_eq!(get_scribr_config_file("/home/ann"), "/home/ann/.scribr/scribr_config.yaml");
}

#[test]
fn notebook_path_is_taken_from_the_scribr_dir() {
    assert_eq!(get_notebook_path("/home/ann", &Settings::default()), "/home/ann/.scribr/notes.txt");
    let mut s = Settings::default();
    s.default_notebook = "/var/notes.txt".to_string();
    assert_eq!(get_notebook_path("/home/ann", &s), "/var/notes.txt");
}

#[test]
fn settings_defaults() {
    let s = Settings::default();
    assert_eq!(s.default_notebook, "notes.txt");
    assert_eq!(s.verbosity, 0);
    assert!(!s.no_magic_commands);
    assert!(s.remote.is_none());
    assert_eq!(s.get_default_notebook_path(), "notes.txt");
    let linked = Settings::new_with_gist_id("tests-gist-id");
    assert_eq!(linked.remote.unwrap().gist_id.unwrap(), "tests-gist-id");
}

#[test]
fn config_keeps_its_path() {
    assert_eq!(read_from_path("./conf.yml").note_output_path, "./conf.yml");
    assert_eq!(Config::from_location("out.csv".to_string()).note_output_path, "out.csv");
}

#[test]
fn device_flow_polls_until_granted() {
    let (state, action) = auth_start();
    assert!(matches!(state, AuthState::Requested));
    match action {
        AuthAction::Send(req) => {
            assert_eq!(req.method, Method::Post);
            assert_eq!(req.url, "https://github.com/login/device/code");
        }
        _ => panic!("expected a request"),
    }
    let session = GhDeviceCodeResponse {
        device_code: "dev".to_string(),
        user_code: "USER-1".to_string(),
        verification_uri: "https://github.com/login/device".to_string(),
        expires_in: 900,
        interval: 5,
    };
    let (state, action) = auth_step(state, AuthEvent::DeviceCode(Some(session)));
    match &action {
        AuthAction::Prompt { user_code, then, .. } => {
            assert_eq!(user_code, "USER-1");
            assert_eq!(then.url, "https://github.com/login/oauth/access_token");
        }
        _ => panic!("expected a prompt"),
    }
    let (state, action) = auth_step(state, AuthEvent::Token(None));
    match &action {
        AuthAction::SleepThenSend { secs, then } => {
            assert_eq!(*secs, 5);
            match &then.body {
                RequestBody::Poll(b) => assert_eq!(b.device_code, "dev"),
                _ => panic!("expected a poll body"),
            }
        }
        _ => panic!("expected a wait"),
    }
    let access = GhAccessResponse {
        access_token: "tok".to_string(),
        token_type: "bearer".to_string(),
        scope: "gist".to_string(),
    };
    let (state, action) = auth_step(state, AuthEvent::Token(Some(access)));
    assert!(matches!(state, AuthState::Granted { .. }));
    match action {
        AuthAction::Done(t) => assert_eq!(t, "tok"),
        _ => panic!("expected the token"),
    }
}

#[test]
fn device_flow_fails_without_a_session() {
    let (state, _) = auth_start();
    let (state, action) = auth_step(state, AuthEvent::DeviceCode(None));
    assert!(matches!(state, AuthState::Failed));
    assert!(matches!(action, AuthAction::Fail));
}

#[test]
fn requests_carry_fixed_bodies() {
    match device_code_request().body {
        RequestBody::DeviceCode(b) => {
            assert_eq!(b.client_id, "2095923defc5784232a5");
            assert_eq!(b.scope, "gist");
        }
        _ => panic!("expected a device code body"),
    }
    match send_access_code_request("d").body {
        RequestBody::Poll(b) => assert_eq!(b.grant_type, "urn:ietf:params:oauth:grant-type:device_code"),
        _ => panic!("expected a poll body"),
    }
}

#[test]
fn gist_lookup_by_id_or_by_listing() {
    let by_id = gh_fetch_scribr_gist("tok", &Some("abc".to_string()));
    assert_eq!(by_id.url, "https://api.github.com/gists/abc");
    assert_eq!(by_id.method, Method::Get);
    assert_eq!(by_id.token, Some("tok".to_string()));
    let listing = gh_fetch_scribr_gist("tok", &None);
    assert_eq!(listing.url, "https://api.github.com/gists");
}

#[test]
fn create_and_push_send_the_files() {
    let files = vec![("a.txt".to_string(), File::from("A".to_string()))];
    let create = gh_create_scribr_gist("tok", files.clone());
    assert_eq!(create.method, Method::Post);
    match create.body {
        RequestBody::Gist(b) => {
            assert_eq!(b.public, Some(false));
            assert_eq!(b.files[0].1.content, "A");
        }
        _ => panic!("expected a gist body"),
    }
    let push = gh_push_gist_files("tok", "g9", files);
    assert_eq!(push.method, Method::Patch);
    assert_eq!(push.url, "https://api.github.com/gists/g9");
    match push.body {
        RequestBody::Gist(b) => assert_eq!(b.public, None),
        _ => panic!("expected a gist body"),
    }
}

#[test]
fn scan_finds_the_first_gist_with_settings() {
    let gists = vec![
        gist("one", &["x.txt"]),
        gist("two", &["notes.txt", SCRIBR_CONFIG_FILE_NAME]),
        gist("three", &[SCRIBR_CONFIG_FILE_NAME]),
    ];
    assert_eq!(gh_search_existing_scribr_gist(gists).unwrap().id, "two");
    assert!(gh_search_existing_scribr_gist(vec![gist("one", &["x.txt"])]).is_none());
    assert!(gh_search_existing_scribr_gist(Vec::new()).is_none());
}

#[test]
fn pull_keeps_what_came_back() {
    let g = gist("g", &["a.txt", "b.txt"]);
    let requests = gh_file_requests("tok", &g);
    assert_eq!(requests.len(), 2);
    assert_eq!(requests[1].1.url, "https://raw/g/b.txt");
    let pulled = gh_pull_gist_files(&g, vec![None, Some("B".to_string())]);
    assert_eq!(pulled.files.len(), 1);
    assert_eq!(pulled.files[0].0, "b.txt");
    assert_eq!(pulled.files[0].1.content, "B");
    assert_eq!(pulled.failed, vec!["a.txt".to_string()]);
}
