use paperticker::config::{
    config_dir, config_path, is_loose, join_path, save_steps, Config, Removal, SaveStep,
};
use paperticker::secret::SecretString;
use paperticker::socket::{
    current_uid, default_socket_fallback_dir, default_socket_path, DEFAULT_SOCK_NAME,
};
use paperticker::startup::{
    bind_verdict, ensure_private_dir, is_in_tmp, socket_inode, socket_listener_pid, standing, BindRun,
    BindStep, BindVerdict, DirFacts, DirVerdict, Found, Process, Standing,
};

fn config(provider: Option<&str>, key: Option<&str>) -> Config {
    Config {
        provider: provider.map(str::to_string),
        api_key: key.map(SecretString::new),
    }
}

#[test]
fn the_config_lives_below_xdg_or_home() {
    assert_eq!(config_dir(Some("/x"), Some("/home/u")), "/x/ticker-follow");
    assert_eq!(config_dir(Some("/x/"), None), "/x/ticker-follow");
    assert_eq!(config_dir(Some(""), Some("/home/u")), "/home/u/.config/ticker-follow");
    assert_eq!(config_dir(None, Some("/home/u")), "/home/u/.config/ticker-follow");
    assert_eq!(config_dir(None, None), "./.config/ticker-follow");
    assert_eq!(config_path(Some("/x"), None), "/x/ticker-follow/credentials.json");
    assert_eq!(join_path("", "name"), "name");
}

#[test]
fn save_then_load_round_trips() {
    let cfg = config(Some("alphavantage"), Some("abc123"));
    let back = Config::load(Some(cfg), None, None);
    assert_eq!(back.provider.as_deref(), Some("alphavantage"));
    assert_eq!(back.api_key.unwrap().expose_secret(), "abc123");
}

#[test]
fn saved_file_and_dir_are_owner_only() {
    let steps = save_steps("/c", 42);
    let mut modes = vec![];
    for step in &steps {
        match step {
            SaveStep::MakeDir { path, mode } => modes.push((path.clone(), *mode)),
            SaveStep::CreateNew { path, mode } => modes.push((path.clone(), *mode)),
            _ => {}
        }
    }
    assert_eq!(
        modes,
        vec![
            ("/c".to_string(), 0o700),
            ("/c/.credentials.42.tmp".to_string(), 0o600)
        ]
    );
}

#[test]
fn a_save_writes_a_temporary_file_and_renames_it() {
    let steps = save_steps("/c", 7);
    assert_eq!(steps.len(), 4);
    assert!(matches!(&steps[2], SaveStep::Write { path } if path == "/c/.credentials.7.tmp"));
    assert!(matches!(
        &steps[3],
        SaveStep::Install { from, to }
            if from == "/c/.credentials.7.tmp" && to == "/c/credentials.json"
    ));
    assert_eq!(steps[0].failure(), None);
    assert_eq!(steps[1].failure().as_deref(), Some("creating /c/.credentials.7.tmp"));
    assert_eq!(steps[2].failure().as_deref(), Some("writing /c/.credentials.7.tmp"));
    assert_eq!(steps[3].failure().as_deref(), Some("installing /c/credentials.json"));
}

#[test]
fn a_loose_credentials_file_gets_tightened_on_load() {
    assert!(is_loose(0o644));
    assert!(is_loose(0o640));
    assert!(is_loose(0o601));
    assert!(!is_loose(0o600));
    assert!(!is_loose(0o100600));
    assert!(!is_loose(0o700));
}

#[test]
fn env_overrides_the_stored_values() {
    let stored = config(Some("stored-provider"), Some("stored"));
    let cfg = Config::load(Some(stored), Some("alphavantage"), Some("from-env"));
    assert_eq!(cfg.provider.as_deref(), Some("alphavantage"));
    assert_eq!(cfg.api_key.unwrap().expose_secret(), "from-env");

    let stored = config(Some("stored-provider"), Some("stored"));
    let cfg = Config::load(Some(stored), Some(""), Some(""));
    assert_eq!(cfg.provider.as_deref(), Some("stored-provider"));
    assert_eq!(cfg.api_key.unwrap().expose_secret(), "stored");
}

#[test]
fn missing_config_is_not_ready_and_not_an_error() {
    let cfg = Config::load(None, None, None);
    assert!(cfg.provider.is_none());
    assert!(!cfg.is_ready());
}

#[test]
fn readiness_requires_a_key_only_where_the_catalog_says_so() {
    let missing = config(Some("alphavantage"), None);
    assert!(!missing.is_ready(), "alphavantage needs a key");

    let empty = config(Some("alphavantage"), Some(""));
    assert!(!empty.is_ready(), "an empty key is not a key");

    assert!(config(Some("alphavantage"), Some("k")).is_ready());
}

#[test]
fn an_unrecognized_provider_is_never_ready() {
    let stale = config(Some("not-a-provider"), Some("abc123"));
    assert!(!stale.is_ready(), "an unknown provider must not report ready");
}

#[test]
fn clear_erases_the_file() {
    assert_eq!(Config::clear("/c/credentials.json", Removal::Removed), Ok(()));
    assert_eq!(Config::clear("/c/credentials.json", Removal::NotThere), Ok(()));
    assert_eq!(
        Config::clear("/c/credentials.json", Removal::Failed),
        Err("removing /c/credentials.json".to_string())
    );
}

#[test]
fn the_socket_lives_in_the_runtime_dir_or_a_private_one() {
    assert_eq!(DEFAULT_SOCK_NAME, "ticker-follow.sock");
    assert_eq!(
        default_socket_path(Some("/run/user/1000"), 1000),
        "/run/user/1000/ticker-follow.sock"
    );
    assert_eq!(default_socket_fallback_dir(1000), "/tmp/paperticker-1000");
    assert_eq!(
        default_socket_path(None, 0),
        "/tmp/paperticker-0/ticker-follow.sock"
    );
}

#[test]
fn the_uid_is_the_first_number_of_its_line() {
    let status = "Name:\ttickerd\nUmask:\t0022\nUid:\t1000\t1001\t1002\t1003\nGid:\t5\n";
    assert_eq!(current_uid(Some(status)), 1000);
    assert_eq!(current_uid(Some("Uid:\r\n")), 0);
    assert_eq!(current_uid(Some("Uid:\tx\n")), 0);
    assert_eq!(current_uid(Some("Uid:\t4294967296\n")), 0);
    assert_eq!(current_uid(Some("Uid:\t4294967295")), 4294967295);
    assert_eq!(current_uid(Some("nothing")), 0);
    assert_eq!(current_uid(None), 0);
}

#[test]
fn paths_through_tmp_are_told_by_their_first_name() {
    for inside in ["/tmp/paperticker-1/x", "/tmp", "//tmp/x", "/./tmp/x"] {
        assert!(is_in_tmp(inside), "{inside}");
    }
    for outside in ["/tmpx/a", "/run/tmp/x", "tmp/x", "", "/", "/run"] {
        assert!(!is_in_tmp(outside), "{outside}");
    }
}

#[test]
fn a_directory_of_another_user_is_refused_and_a_loose_one_tightened() {
    let facts = DirFacts { symlink: false, directory: true, uid: 5, mode: 0o40700 };
    assert!(matches!(ensure_private_dir("/d", Some(facts), 5), DirVerdict::Keep));
    let loose = DirFacts { mode: 0o40755, ..facts };
    assert!(matches!(ensure_private_dir("/d", Some(loose), 5), DirVerdict::Tighten));
    let refused = |facts, uid| match ensure_private_dir("/d", facts, uid) {
        DirVerdict::Refuse(why) => why,
        other => panic!("{other:?}"),
    };
    assert_eq!(
        refused(Some(facts), 6),
        "/d is owned by uid 5, not 6 — refusing to bind inside it"
    );
    let link = DirFacts { symlink: true, ..facts };
    assert_eq!(
        refused(Some(link), 5),
        "/d exists but is not a real directory — refusing to bind inside it"
    );
    let file = DirFacts { directory: false, ..facts };
    assert_eq!(
        refused(Some(file), 5),
        "/d exists but is not a real directory — refusing to bind inside it"
    );
    assert_eq!(refused(None, 5), "stat /d");
}

#[test]
fn a_stale_socket_is_replaced_and_a_live_one_respected() {
    assert!(matches!(bind_verdict("/s", Found::Nothing, None), BindVerdict::Bind));
    assert!(matches!(bind_verdict("/s", Found::Stale, None), BindVerdict::RemoveAndBind));
    let refused = |pid| match bind_verdict("/s", Found::Live, pid) {
        BindVerdict::Refuse(why) => why,
        other => panic!("{other:?}"),
    };
    let known = refused(Some(12345));
    assert!(known.starts_with("another tickerd (PID 12345) is already listening on /s\n\nOne daemon"));
    assert!(known.ends_with("protocol):\n\n    pkill tickerd && tickerd &"));
    assert!(refused(None).starts_with("another tickerd is already listening on /s\n"));
}

#[test]
fn the_listener_is_found_by_the_inode_of_its_socket() {
    let table = "Num RefCount Protocol Flags Type St Inode Path\n\
                 0000: 00000002 00000000 00010000 0001 01 111 /other\n\
                 0000: 00000002 00000000 00010000 0001 01 222\n\
                 0000: 00000002 00000000 00010000 0001 01 333 /s\n\
                 0000: 00000002 00000000 00010000 0001 01 444 /s\n";
    assert_eq!(socket_inode(table, "/s").as_deref(), Some("333"));
    assert_eq!(socket_inode(table, "/none"), None);

    let process = |name: &str, links: &[&str]| Process {
        name: name.to_string(),
        links: links.iter().map(|l| l.to_string()).collect(),
    };
    let procs = vec![
        process("self", &["socket:[333]"]),
        process("10", &["socket:[333]"]),
        process("11", &["socket:[3333]", "/dev/null"]),
        process("12", &["/dev/null", "socket:[333]"]),
        process("13", &["socket:[333]"]),
    ];
    assert_eq!(socket_listener_pid(&procs, 10, "333"), Some(12));
    assert_eq!(socket_listener_pid(&procs, 12, "333"), Some(10));
    assert_eq!(socket_listener_pid(&procs, 10, "9"), None);
}

#[test]
fn an_unknown_provider_is_told_apart_from_a_missing_key() {
    assert_eq!(standing(&config(None, Some("k"))), Standing::Unselected);
    assert_eq!(standing(&config(Some("nope"), Some("k"))), Standing::Unrecognized);
    assert_eq!(standing(&config(Some("alphavantage"), None)), Standing::MissingKey);
    assert_eq!(standing(&config(Some("alphavantage"), Some("k"))), Standing::Ready);
}

fn bind_run(path: &str, parent: Option<&str>) -> BindRun {
    BindRun { path: path.to_string(), parent: parent.map(str::to_string) }
}

fn failure(step: BindStep) -> String {
    match step {
        BindStep::Fail(why) => why,
        other => panic!("{other:?}"),
    }
}

#[test]
fn the_way_to_listening_in_tmp_goes_through_a_vetted_directory() {
    let run = match bind_run("/tmp/t-5/s", Some("/tmp/t-5")).start() {
        BindStep::MakeDir { dir, mode, run } => {
            assert_eq!((dir.as_str(), mode), ("/tmp/t-5", 0o700));
            run
        }
        other => panic!("{other:?}"),
    };
    let run = match run.dir_made() {
        BindStep::Inspect { dir, run } => {
            assert_eq!(dir, "/tmp/t-5");
            run
        }
        other => panic!("{other:?}"),
    };
    let facts = DirFacts { symlink: false, directory: true, uid: 5, mode: 0o40755 };
    assert_eq!(
        failure(run.clone().inspected("/tmp/t-5", Some(facts), 6)),
        "/tmp/t-5 is owned by uid 5, not 6 — refusing to bind inside it"
    );
    let private = DirFacts { mode: 0o40700, ..facts };
    assert!(matches!(
        run.clone().inspected("/tmp/t-5", Some(private), 5),
        BindStep::Probe { .. }
    ));
    let run = match run.inspected("/tmp/t-5", Some(facts), 5) {
        BindStep::Tighten { dir, mode, run } => {
            assert_eq!((dir.as_str(), mode), ("/tmp/t-5", 0o700));
            run
        }
        other => panic!("{other:?}"),
    };
    assert_eq!(failure(run.clone().tightened("/tmp/t-5", false)), "chmod /tmp/t-5");
    assert!(matches!(run.tightened("/tmp/t-5", true), BindStep::Probe { .. }));
}

#[test]
fn the_socket_is_bound_and_then_protected() {
    let run = bind_run("/run/user/5/s", Some("/run/user/5"));
    assert!(matches!(run.clone().start(), BindStep::MakeDir { .. }));
    assert!(matches!(run.clone().dir_made(), BindStep::Probe { .. }));
    assert!(matches!(bind_run("s", None).start(), BindStep::Probe { .. }));
    assert!(matches!(run.clone().probed(Found::Nothing, None), BindStep::Bind { .. }));
    assert!(matches!(run.clone().probed(Found::Stale, None), BindStep::Remove { .. }));
    assert!(failure(run.clone().probed(Found::Live, Some(7)))
        .starts_with("another tickerd (PID 7) is already listening on /run/user/5/s\n"));
    assert!(matches!(run.clone().removed(), BindStep::Bind { .. }));
    assert_eq!(failure(run.clone().bound(false)), "binding /run/user/5/s");
    assert!(matches!(run.clone().bound(true), BindStep::Protect { mode: 0o600, .. }));
    assert_eq!(failure(run.clone().protected(false)), "chmod /run/user/5/s");
    assert!(matches!(run.protected(true), BindStep::Listen));
}
