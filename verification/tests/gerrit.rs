use regex::Regex;
use s5ci::gerrit_interact::{
    gerrit_add_review_comment, gerrit_query_changes, parse_gerrit_poll_command_reply,
    query_command, reply_lines, ParsedRow, PollError,
};
use s5ci::gerrit_types::{GerritChangeSet, GerritQueryError, GerritQueryStats, GerritVoteAction};
use s5ci::runtime_data::{
    check_trigger_names, get_patchset_extract_regex, get_trigger_command_templates,
    get_trigger_regexes, s5ciAction, s5ciRuntimeData, ConfigError,
};
use s5ci::s5ci_config::{
    position_of, repeated_name, s5AutorestartConfig, s5CronTrigger, s5GerritQuery, s5GerritTrigger, s5GerritVote, s5SshAuth,
    s5SshAuthAgent, s5TriggerAction, s5ciConfig, s5ciDirectSshPoll, s5ciJobs, s5ciPollGerrit,
    s5ciPollType,
};

fn config(triggers: Vec<(String, s5GerritTrigger)>) -> s5ciConfig {
    s5ciConfig {
        default_auth: s5SshAuth::auth_agent(s5SshAuthAgent { username: "ci".to_string() }),
        server: s5ciPollGerrit {
            address: "127.0.0.1".to_string(),
            port: 29418,
            poll_type: s5ciPollType::direct_ssh(s5ciDirectSshPoll { auth: None }),
            poll_wait_ms: None,
            syncing_poll_wait_ms: None,
            sync_horizon_sec: None,
        },
        default_query: s5GerritQuery { filter: "status:open".to_string(), options: "--comments".to_string() },
        default_vote: s5GerritVote {
            success: "--verified +1".to_string(),
            failure: "--verified -1".to_string(),
            clear: "--verified 0".to_string(),
        },
        default_batch_command: None,
        default_sync_horizon_sec: None,
        default_regex_trigger_delay_sec: None,
        command_rootdir: "/ci/scripts".to_string(),
        triggers: Some(triggers),
        cron_triggers: None,
        patchset_extract_regex: "^Patch Set (?P<patchset>[0-9]+):".to_string(),
        hostname: "ci".to_string(),
        install_rootdir: "/ci".to_string(),
        autorestart: s5AutorestartConfig { on_config_change: false, on_exe_change: false },
        db_url: "db.sqlite3".to_string(),
        jobs: s5ciJobs { rootdir: "/ci/jobs".to_string(), root_url: "http://ci/jobs".to_string() },
        per_project_config: None,
    }
}

fn runtime(sandbox_level: u32, changeset_id: Option<u32>, patchset_id: Option<u32>) -> s5ciRuntimeData {
    s5ciRuntimeData {
        config_path: "/ci/config.yaml".to_string(),
        sandbox_level,
        patchset_extract_regex: Regex::new("^Patch Set (?P<patchset>[0-9]+):").unwrap(),
        trigger_regexes: Vec::new(),
        trigger_command_templates: Vec::new(),
        cron_trigger_schedules: Vec::new(),
        action: s5ciAction::Loop,
        changeset_id,
        patchset_id,
        real_s5ci_exe: "/ci/bin/s5ci".to_string(),
        trigger_event_id: None,
        comment_value: String::new(),
    }
}

fn change(number: u32, last_updated: Option<i64>) -> GerritChangeSet {
    GerritChangeSet {
        project: Some("vpp".to_string()),
        branch: None,
        id: None,
        number: Some(number),
        subject: None,
        owner: None,
        url: None,
        commitMessage: None,
        createdOn: None,
        lastUpdated: last_updated,
        open: None,
        status: None,
        comments: None,
        patchSets: None,
        submitRecords: None,
        allReviewers: None,
    }
}

fn change_row(number: u32, last_updated: Option<i64>) -> ParsedRow {
    ParsedRow { error: None, stats: None, change: Some(change(number, last_updated)) }
}

fn stats_row(more: bool) -> ParsedRow {
    ParsedRow {
        error: None,
        stats: Some(GerritQueryStats {
            record_type: "stats".to_string(),
            rowCount: 2,
            runTimeMilliseconds: 5,
            moreChanges: more,
        }),
        change: None,
    }
}

fn trigger(regex: &str, suppress: Option<&str>, action: s5TriggerAction) -> s5GerritTrigger {
    s5GerritTrigger {
        project: None,
        branch: None,
        regex: regex.to_string(),
        suppress_regex: suppress.map(|s| s.to_string()),
        action,
    }
}

#[test]
fn query_command_bounds_the_time() {
    let cfg = config(Vec::new());
    let b = "2019-01-01 10:00:00".to_string();
    let a = "2019-01-02 11:30:00".to_string();
    assert_eq!(
        query_command(&cfg, Some(&b), Some(&a)),
        "gerrit query status:open (before: \\\"2019-01-01 10:00:00\\\" OR after:\\\"2019-01-02 11:30:00\\\") --format JSON --comments"
    );
    assert_eq!(
        query_command(&cfg, Some(&b), None),
        "gerrit query status:open before:\\\"2019-01-01 10:00:00\\\" --format JSON --comments"
    );
    assert_eq!(
        query_command(&cfg, None, Some(&a)),
        "gerrit query status:open after:\\\"2019-01-02 11:30:00\\\" --format JSON --comments"
    );
    assert_eq!(query_command(&cfg, None, None), "gerrit query status:open  --format JSON --comments");
}

#[test]
fn query_writes_times_as_date_and_time_of_day() {
    let cfg = config(Vec::new());
    assert_eq!(
        gerrit_query_changes(&cfg, None, Some(1_546_336_800_000)).as_deref(),
        Some("gerrit query status:open after:\\\"2019-01-01 10:00:00\\\" --format JSON --comments")
    );
    assert_eq!(
        gerrit_query_changes(&cfg, Some(0), Some(1_546_336_800_250)).as_deref(),
        Some("gerrit query status:open (before: \\\"1970-01-01 00:00:00\\\" OR after:\\\"2019-01-01 10:00:00.250\\\") --format JSON --comments")
    );
    assert_eq!(gerrit_query_changes(&cfg, Some(i64::MAX), None), None);
    assert_eq!(
        gerrit_query_changes(&cfg, None, None).as_deref(),
        Some("gerrit query status:open  --format JSON --comments")
    );
}

#[test]
fn reply_is_split_into_lines() {
    assert_eq!(reply_lines("a\nb\r\nc"), vec!["a", "b", "c"]);
    assert_eq!(reply_lines("a\n"), vec!["a"]);
    assert_eq!(reply_lines("a\n\nb\n"), vec!["a", "", "b"]);
    assert_eq!(reply_lines("\n"), vec![""]);
    assert_eq!(reply_lines("a\r"), vec!["a\r"]);
    assert_eq!(reply_lines("\r\n"), vec![""]);
    assert!(reply_lines("").is_empty());
    for text in ["a\nb\r\nc", "a\n", "a\n\nb\n", "\n", "a\r", "\r\n", "", "x\r\r\ny", "\n\n"] {
        let expected: Vec<String> = text.lines().map(|l| l.to_string()).collect();
        assert_eq!(reply_lines(text), expected);
    }
}

#[test]
fn reply_gives_changes_statistics_and_bounds() {
    let now = 1_700_000_000_500;
    let rows = vec![
        change_row(1, Some(1_699_999_000)),
        change_row(2, None),
        change_row(3, Some(1_699_998_000)),
        stats_row(true),
    ];
    let result = parse_gerrit_poll_command_reply(rows, "raw", now).unwrap();
    assert_eq!(result.after_when, Some(now));
    assert_eq!(result.before_when, Some(1_699_998_000_000));
    assert_eq!(result.output, "raw");
    let numbers: Vec<Option<u32>> = result.changes.iter().map(|c| c.number).collect();
    assert_eq!(numbers, vec![Some(1), Some(3)]);
    assert_eq!(result.stats.map(|s| s.rowCount), Some(2));

    let rows = vec![change_row(1, Some(1_699_999_000)), stats_row(false)];
    let result = parse_gerrit_poll_command_reply(rows, "raw", now).unwrap();
    assert_eq!(result.before_when, None);
    assert_eq!(result.changes.len(), 1);

    let rows = vec![change_row(1, Some(1_800_000_000)), stats_row(true)];
    let result = parse_gerrit_poll_command_reply(rows, "raw", now).unwrap();
    assert_eq!(result.before_when, Some(1_700_000_000_000));

    let result = parse_gerrit_poll_command_reply(Vec::new(), "", now).unwrap();
    assert_eq!(result.after_when, Some(now));
    assert!(result.changes.is_empty() && result.stats.is_none() && result.before_when.is_none());
}

#[test]
fn reply_with_an_error_row_or_an_unreadable_row_fails() {
    let now = 1_700_000_000_500;
    let error = ParsedRow {
        error: Some(GerritQueryError { record_type: "error".to_string(), message: "boom".to_string() }),
        stats: None,
        change: None,
    };
    let rows = vec![change_row(1, Some(5)), error, stats_row(false)];
    match parse_gerrit_poll_command_reply(rows, "raw", now) {
        Err(PollError::QueryBackendError(message)) => assert_eq!(message, "boom"),
        other => panic!("unexpected: {:?}", other),
    }
    let unreadable = ParsedRow { error: None, stats: None, change: None };
    let rows = vec![change_row(1, Some(5)), stats_row(false), unreadable];
    match parse_gerrit_poll_command_reply(rows, "raw", now) {
        Err(PollError::UnreadableRow(at)) => assert_eq!(at, 2),
        other => panic!("unexpected: {:?}", other),
    }
    let not_an_error = ParsedRow {
        error: Some(GerritQueryError { record_type: "stats".to_string(), message: "".to_string() }),
        stats: stats_row(true).stats,
        change: None,
    };
    let result = parse_gerrit_poll_command_reply(vec![not_an_error], "raw", now).unwrap();
    assert_eq!(result.before_when, Some(1_700_000_000_000));
}

#[test]
fn review_command_carries_vote_and_message() {
    let cfg = config(Vec::new());
    let plan = gerrit_add_review_comment(
        &cfg,
        &runtime(0, Some(4711), Some(2)),
        &Some(GerritVoteAction::success),
        "built fine",
    )
    .unwrap();
    assert_eq!(plan.command, "gerrit review 4711,2  --verified +1 --message \"built fine\"");
    assert!(plan.send);
    let plan = gerrit_add_review_comment(
        &cfg,
        &runtime(1, Some(4711), Some(0)),
        &Some(GerritVoteAction::failure),
        "broke",
    )
    .unwrap();
    assert_eq!(plan.command, "gerrit review 4711  --verified -1 --message \"broke\"");
    assert!(!plan.send);
    let plan = gerrit_add_review_comment(
        &cfg,
        &runtime(2, Some(4711), Some(2)),
        &Some(GerritVoteAction::clear),
        "hm",
    )
    .unwrap();
    assert_eq!(plan.command, "gerrit review 4711,2  --message \"hm\"");
    assert!(!plan.send);
    let plan =
        gerrit_add_review_comment(&cfg, &runtime(0, Some(4711), Some(2)), &None, "note").unwrap();
    assert_eq!(plan.command, "gerrit review 4711,2  --message \"note\"");
    assert!(gerrit_add_review_comment(&cfg, &runtime(0, None, Some(2)), &None, "x").is_none());
    assert!(gerrit_add_review_comment(&cfg, &runtime(0, Some(1), None), &None, "x").is_none());
}

#[test]
fn votes_are_read_from_their_names() {
    assert_eq!(GerritVoteAction::from_str("success"), Ok(GerritVoteAction::success));
    assert_eq!(GerritVoteAction::from_str("failure"), Ok(GerritVoteAction::failure));
    assert_eq!(GerritVoteAction::from_str("clear"), Ok(GerritVoteAction::clear));
    assert_eq!(GerritVoteAction::from_str("Success"), Err(()));
    assert_eq!(GerritVoteAction::from_str(""), Err(()));
}

#[test]
fn server_address_and_port() {
    let cfg = config(Vec::new());
    assert_eq!(cfg.server.get_server_address_port(), "127.0.0.1:29418");
}

#[test]
fn bad_patterns_and_templates_are_configuration_errors() {
    let command = || s5TriggerAction::command("echo {{regex.patchset}}".to_string());
    let cfg = config(vec![
        ("good".to_string(), trigger("^ok$", Some("^no$"), command())),
        ("bad".to_string(), trigger("^(ok$", None, command())),
    ]);
    match get_trigger_regexes(&cfg) {
        Err(ConfigError::BadTriggerRegex(name)) => assert_eq!(name, "bad"),
        other => panic!("unexpected: {:?}", other.map(|v| v.len())),
    }
    let cfg = config(vec![("worse".to_string(), trigger("^ok$", Some("[a-"), command()))]);
    match get_trigger_regexes(&cfg) {
        Err(ConfigError::BadSuppressRegex(name)) => assert_eq!(name, "worse"),
        other => panic!("unexpected: {:?}", other.map(|v| v.len())),
    }
    let cfg = config(vec![
        ("a".to_string(), trigger("^a$", None, s5TriggerAction::event("seen".to_string()))),
        ("b".to_string(), trigger("^b$", Some("^nb$"), command())),
        ("c".to_string(), trigger("^c$", None, command())),
    ]);
    let regexes = get_trigger_regexes(&cfg).unwrap();
    let names: Vec<(&str, bool)> =
        regexes.iter().map(|r| (r.name.as_str(), r.r_suppress.is_some())).collect();
    assert_eq!(names, vec![("a", false), ("b", true), ("c", false)]);
    let templates = get_trigger_command_templates(&cfg);
    assert_eq!(
        templates,
        vec![
            ("b".to_string(), "echo {{regex.patchset}}".to_string()),
            ("c".to_string(), "echo {{regex.patchset}}".to_string()),
        ]
    );
    let mut none = config(Vec::new());
    none.triggers = None;
    assert!(get_trigger_regexes(&none).unwrap().is_empty());
    assert!(get_trigger_command_templates(&none).is_empty());
    assert_eq!(position_of(cfg.triggers.as_ref().unwrap(), "b"), Some(1));
    assert_eq!(position_of(cfg.triggers.as_ref().unwrap(), "shut"), None);
}

#[test]
fn trigger_names_have_to_be_unique() {
    let command = || s5TriggerAction::command("echo".to_string());
    let named = |names: &[&str]| -> Vec<(String, s5GerritTrigger)> {
        names.iter().map(|n| (n.to_string(), trigger("^a$", None, command()))).collect()
    };
    assert_eq!(repeated_name(&named(&["a", "b", "c"])), None);
    assert_eq!(repeated_name(&named(&[])), None);
    assert_eq!(repeated_name(&named(&["a", "b", "a", "b"])), Some(2));
    assert_eq!(repeated_name(&named(&["a", "a"])), Some(1));
    assert!(check_trigger_names(&config(named(&["a", "b"]))).is_ok());
    match check_trigger_names(&config(named(&["a", "b", "b"]))) {
        Err(ConfigError::DuplicateTrigger(name)) => assert_eq!(name, "b"),
        other => panic!("unexpected: {:?}", other),
    }
    let mut cfg = config(named(&["a"]));
    let tick = || s5CronTrigger {
        cron: "0 * * * * *".to_string(),
        action: s5TriggerAction::command("tick".to_string()),
    };
    cfg.cron_triggers = Some(vec![("n".to_string(), tick()), ("n".to_string(), tick())]);
    match check_trigger_names(&cfg) {
        Err(ConfigError::DuplicateCronTrigger(name)) => assert_eq!(name, "n"),
        other => panic!("unexpected: {:?}", other),
    }
    cfg.triggers = None;
    cfg.cron_triggers = None;
    assert!(check_trigger_names(&cfg).is_ok());
}

#[test]
fn extraction_pattern_is_compiled_or_refused() {
    let mut cfg = config(Vec::new());
    let re = get_patchset_extract_regex(&cfg).unwrap();
    assert_eq!(re.as_str(), "^Patch Set (?P<patchset>[0-9]+):");
    assert!(re.is_match("Patch Set 3: Code-Review+1"));
    cfg.patchset_extract_regex = "(?P<patchset".to_string();
    match get_patchset_extract_regex(&cfg) {
        Err(ConfigError::BadPatchsetExtractRegex) => {}
        other => panic!("unexpected: {:?}", other.map(|r| r.as_str().to_string())),
    }
}
