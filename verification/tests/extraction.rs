use s5ci::comment_triggers::{
    find_patchset, get_comment_triggers_from_comments, max_patchset_number,
    next_last_seen_comment_id, process_gerrit_change, settle_patchset, CommentTrigger, Expansion,
};
use s5ci::template::TemplateValue;
use s5ci::captures::CaptureMap;
use s5ci::gerrit_types::{GerritChangeSet, GerritComment, GerritOwner, GerritPatchSet};
use s5ci::runtime_data::{
    get_patchset_extract_regex, get_trigger_command_templates, get_trigger_regexes, s5ciAction,
    s5ciRuntimeData,
};
use s5ci::s5ci_config::{
    s5AutorestartConfig, s5GerritQuery, s5GerritTrigger, s5GerritVote, s5SshAuth, s5SshAuthAgent,
    s5TriggerAction, s5ciConfig, s5ciDirectSshPoll, s5ciJobs, s5ciPollGerrit, s5ciPollType,
};

fn nobody() -> GerritOwner {
    GerritOwner { name: None, email: None, username: None }
}

fn comment(timestamp: i64, message: &str) -> GerritComment {
    GerritComment { timestamp, reviewer: nobody(), message: message.to_string() }
}

fn patchset(number: u32, revision: &str) -> GerritPatchSet {
    GerritPatchSet {
        number,
        revision: revision.to_string(),
        parents: vec!["0000".to_string()],
        ref_name: format!("refs/changes/01/1/{}", number),
        uploader: nobody(),
        createdOn: 100,
        author: nobody(),
        kind: "REWORK".to_string(),
        approvals: None,
        files: None,
        sizeInsertions: Some(3),
        sizeDeletions: None,
    }
}

fn change(project: &str, comments: Vec<GerritComment>, psets: Vec<GerritPatchSet>) -> GerritChangeSet {
    GerritChangeSet {
        project: Some(project.to_string()),
        branch: Some("master".to_string()),
        id: Some("I0123".to_string()),
        number: Some(4711),
        subject: None,
        owner: None,
        url: None,
        commitMessage: None,
        createdOn: Some(100),
        lastUpdated: Some(200),
        open: Some(true),
        status: None,
        comments: Some(comments),
        patchSets: Some(psets),
        submitRecords: None,
        allReviewers: None,
    }
}

fn config(triggers: Vec<(String, s5GerritTrigger)>) -> s5ciConfig {
    s5ciConfig {
        default_auth: s5SshAuth::auth_agent(s5SshAuthAgent { username: "ci".to_string() }),
        server: s5ciPollGerrit {
            address: "127.0.0.1".to_string(),
            port: 29418,
            poll_type: s5ciPollType::direct_ssh(s5ciDirectSshPoll { auth: None }),
            poll_wait_ms: None,
            syncing_poll_wait_ms: None,
            sync_horizon_sec: None,
        },
        default_query: s5GerritQuery { filter: "status:open".to_string(), options: "--comments".to_string() },
        default_vote: s5GerritVote {
            success: "--verified +1".to_string(),
            failure: "--verified -1".to_string(),
            clear: "--verified 0".to_string(),
        },
        default_batch_command: None,
        default_sync_horizon_sec: None,
        default_regex_trigger_delay_sec: None,
        command_rootdir: "/ci/scripts".to_string(),
        triggers: Some(triggers),
        cron_triggers: None,
        patchset_extract_regex: "^Patch Set (?P<patchset>[0-9]+):".to_string(),
        hostname: "ci".to_string(),
        install_rootdir: "/ci".to_string(),
        autorestart: s5AutorestartConfig { on_config_change: false, on_exe_change: false },
        db_url: "db.sqlite3".to_string(),
        jobs: s5ciJobs { rootdir: "/ci/jobs".to_string(), root_url: "http://ci/jobs".to_string() },
        per_project_config: None,
    }
}

fn trigger(regex: &str, suppress: Option<&str>, command: &str) -> s5GerritTrigger {
    s5GerritTrigger {
        project: None,
        branch: None,
        regex: regex.to_string(),
        suppress_regex: suppress.map(|s| s.to_string()),
        action: s5TriggerAction::command(command.to_string()),
    }
}

fn runtime(config: &s5ciConfig) -> s5ciRuntimeData {
    s5ciRuntimeData {
        config_path: "/ci/config.yaml".to_string(),
        sandbox_level: 0,
        patchset_extract_regex: get_patchset_extract_regex(config).unwrap(),
        trigger_regexes: get_trigger_regexes(config).unwrap(),
        trigger_command_templates: get_trigger_command_templates(config),
        cron_trigger_schedules: Vec::new(),
        action: s5ciAction::Loop,
        changeset_id: None,
        patchset_id: None,
        real_s5ci_exe: "/ci/bin/s5ci".to_string(),
        trigger_event_id: None,
        comment_value: String::new(),
    }
}

fn to_data(value: &TemplateValue) -> mustache::Data {
    match value {
        TemplateValue::Null => mustache::Data::Null,
        TemplateValue::Text(s) => mustache::Data::String(s.clone()),
        TemplateValue::Flag(b) => mustache::Data::Bool(*b),
        TemplateValue::List(items) => mustache::Data::Vec(items.iter().map(to_data).collect()),
        TemplateValue::Record(fields) => {
            mustache::Data::Map(fields.iter().map(|f| (f.0.clone(), to_data(&f.1))).collect())
        }
    }
}

fn command(expansion: &Expansion) -> Option<String> {
    let template = mustache::compile_str(expansion.template.as_ref()?).unwrap();
    Some(template.render_data_to_string(&to_data(&expansion.bindings)).unwrap())
}

fn summary(triggers: &Vec<CommentTrigger>) -> Vec<(u32, String, u32, bool)> {
    triggers
        .iter()
        .map(|t| (t.comment_index, t.trigger_name.clone(), t.patchset_id, t.is_suppress))
        .collect()
}

#[test]
fn matching_comments_give_triggers_with_captures() {
    let cfg = config(vec![(
        "build".to_string(),
        trigger(r"(?m)^build (?P<target>\S+)$", Some(r"(?m)^cancel build$"), "build {{regex.target}}"),
    )]);
    let rtdt = runtime(&cfg);
    let comments = vec![
        comment(10, "Patch Set 2:\n\nbuild x86;rm"),
        comment(20, "Patch Set 2:\n\nnothing to see"),
        comment(30, "Patch Set 3:\n\ncancel build"),
    ];
    let found = get_comment_triggers_from_comments(&rtdt, -1, 3, &comments, 0);
    assert_eq!(
        summary(&found),
        vec![(0, "build".to_string(), 2, false), (2, "build".to_string(), 3, true)]
    );
    assert_eq!(found[0].captures.get("target").map(|s| s.as_str()), Some("x86_rm"));
    assert_eq!(found[0].captures.get("patchset").map(|s| s.as_str()), Some("2"));
    assert!(found[1].captures.get("target").is_none());
    assert!(!found[0].is_suppressed && !found[1].is_suppressed);
    assert!(!found[0].patchset_unreadable());
}

#[test]
fn seen_and_old_comments_give_no_triggers() {
    let cfg = config(vec![("retest".to_string(), trigger(r"(?m)^retest$", None, "echo"))]);
    let rtdt = runtime(&cfg);
    let comments = vec![
        comment(10, "Patch Set 1:\n\nretest"),
        comment(20, "Patch Set 1:\n\nretest"),
        comment(30, "Patch Set 2:\n\nretest"),
        comment(5, "Patch Set 2:\n\nretest"),
    ];
    let all = get_comment_triggers_from_comments(&rtdt, -1, 2, &comments, 0);
    assert_eq!(all.len(), 4);
    let new = get_comment_triggers_from_comments(&rtdt, 2, 2, &comments, 0);
    assert_eq!(
        summary(&new),
        vec![(2, "retest".to_string(), 2, false), (3, "retest".to_string(), 2, false)]
    );
    let late = get_comment_triggers_from_comments(&rtdt, 0, 2, &comments, 10);
    assert_eq!(
        summary(&late),
        vec![(1, "retest".to_string(), 1, false), (2, "retest".to_string(), 2, false)]
    );
    let none = get_comment_triggers_from_comments(&rtdt, 4, 2, &comments, 0);
    assert!(none.is_empty());
    assert_eq!(next_last_seen_comment_id(&comments), 4);
}

#[test]
fn merge_notice_falls_back_to_the_highest_patchset() {
    let cfg = config(vec![(
        "merged".to_string(),
        trigger(r"^Change has been successfully merged by ", None, "echo merged"),
    )]);
    let rtdt = runtime(&cfg);
    let comments = vec![comment(10, "Change has been successfully merged by Jane")];
    let found = get_comment_triggers_from_comments(&rtdt, 0, 7, &comments, 0);
    assert_eq!(summary(&found), vec![(0, "merged".to_string(), 7, false)]);
    assert_eq!(found[0].captures.get("patchset").map(|s| s.as_str()), Some("7"));
    assert!(!found[0].patchset_unreadable());
}

#[test]
fn unreadable_patchset_is_kept_and_reported() {
    let cfg = config(vec![("retest".to_string(), trigger(r"^retest$", None, "echo"))]);
    let rtdt = runtime(&cfg);
    let comments = vec![comment(10, "retest")];
    let found = get_comment_triggers_from_comments(&rtdt, 0, 7, &comments, 0);
    assert_eq!(summary(&found), vec![(0, "retest".to_string(), 0, false)]);
    assert_eq!(found[0].captures.get("patchset").map(|s| s.as_str()), Some(""));
    assert!(found[0].patchset_unreadable());
}

#[test]
fn settle_patchset_reads_or_falls_back() {
    let mut captures = CaptureMap::new();
    captures.insert("patchset".to_string(), "12".to_string());
    let (kept, number) = settle_patchset(captures, false, 5);
    assert_eq!(number, 12);
    assert_eq!(kept.get("patchset").map(|s| s.as_str()), Some("12"));

    let mut captures = CaptureMap::new();
    captures.insert("patchset".to_string(), "x".to_string());
    let (kept, number) = settle_patchset(captures, true, 5);
    assert_eq!(number, 5);
    assert_eq!(kept.get("patchset").map(|s| s.as_str()), Some("5"));

    let mut captures = CaptureMap::new();
    captures.insert("patchset".to_string(), "x".to_string());
    let (kept, number) = settle_patchset(captures, false, 5);
    assert_eq!(number, 0);
    assert_eq!(kept.get("patchset").map(|s| s.as_str()), Some("x"));

    let (kept, number) = settle_patchset(CaptureMap::new(), true, 9);
    assert_eq!(number, 9);
    assert_eq!(kept.get("patchset").map(|s| s.as_str()), Some("9"));
}

#[test]
fn highest_patchset_number() {
    assert_eq!(max_patchset_number(&Vec::new()), 0);
    assert_eq!(
        max_patchset_number(&vec![patchset(2, "b"), patchset(5, "e"), patchset(3, "c")]),
        5
    );
}

#[test]
fn retest_comment_expands_to_one_command() {
    let cfg = config(vec![(
        "retest".to_string(),
        trigger(r"(?m)^retest$", None, "echo {{patchset.revision}}"),
    )]);
    let rtdt = runtime(&cfg);
    let cs = change(
        "vpp",
        vec![comment(1000, "Patch Set 1:\n\nretest")],
        vec![patchset(1, "abc123")],
    );
    let outcome = process_gerrit_change(&cfg, &rtdt, &cs, -1, Some(10)).unwrap();
    assert_eq!(outcome.changeset_id, 4711);
    assert_eq!(outcome.last_seen_comment_id, 1);
    assert_eq!(outcome.occurrences.len(), 1);
    assert_eq!(outcome.expansions.len(), 1);
    assert_eq!(outcome.expansions[0].template.as_deref(), Some("echo {{patchset.revision}}"));
    assert_eq!(command(&outcome.expansions[0]).as_deref(), Some("echo abc123"));
    assert_eq!(outcome.expansions[0].trigger.patchset_id, 1);
    assert_eq!(outcome.expansions[0].trigger.comment_index, 0);
}

#[test]
fn template_sees_captures_and_patchset_fields() {
    let cfg = config(vec![(
        "build".to_string(),
        trigger(
            r"(?m)^build (?P<target>\S+)$",
            None,
            "make {{regex.target}} PS={{regex.patchset}} N={{patchset.number}} REF={{patchset.ref}} INS={{patchset.sizeInsertions}}",
        ),
    )]);
    let rtdt = runtime(&cfg);
    let cs = change(
        "vpp",
        vec![comment(1000, "Patch Set 2:\n\nbuild arm")],
        vec![patchset(1, "aaa"), patchset(2, "bbb")],
    );
    let outcome = process_gerrit_change(&cfg, &rtdt, &cs, -1, Some(10)).unwrap();
    assert_eq!(outcome.expansions.len(), 1);
    assert_eq!(
        command(&outcome.expansions[0]).as_deref(),
        Some("make arm PS=2 N=2 REF=refs/changes/01/1/2 INS=3")
    );
}

#[test]
fn suppressed_and_foreign_triggers_expand_to_nothing() {
    let mut retest = trigger(r"(?m)^retest$", Some(r"(?m)^never mind$"), "echo {{patchset.revision}}");
    retest.project = Some("vpp".to_string());
    let cfg = config(vec![("retest".to_string(), retest)]);
    let rtdt = runtime(&cfg);
    let comments = vec![
        comment(1000, "Patch Set 1:\n\nretest"),
        comment(1001, "Patch Set 1:\n\nretest"),
        comment(1002, "Patch Set 1:\n\nnever mind"),
    ];
    let cs = change("vpp", comments.clone(), vec![patchset(1, "abc123")]);
    let outcome = process_gerrit_change(&cfg, &rtdt, &cs, -1, Some(10)).unwrap();
    assert_eq!(outcome.occurrences.len(), 3);
    assert!(!outcome.occurrences[0].is_suppressed);
    assert!(outcome.occurrences[1].is_suppressed);
    assert_eq!(outcome.expansions.len(), 1);
    assert_eq!(outcome.expansions[0].trigger.comment_index, 0);
    assert_eq!(outcome.last_seen_comment_id, 3);

    let elsewhere = change("csit", comments, vec![patchset(1, "abc123")]);
    let outcome = process_gerrit_change(&cfg, &rtdt, &elsewhere, -1, Some(10)).unwrap();
    assert!(outcome.expansions.is_empty());
}

#[test]
fn trigger_delay_moves_the_start_line() {
    let mut cfg = config(vec![("retest".to_string(), trigger(r"(?m)^retest$", None, "echo"))]);
    cfg.default_regex_trigger_delay_sec = Some(100);
    let rtdt = runtime(&cfg);
    let comments = vec![
        comment(1099, "Patch Set 1:\n\nretest"),
        comment(1100, "Patch Set 1:\n\nretest"),
    ];
    let cs = change("vpp", comments, vec![patchset(1, "abc123")]);
    let outcome = process_gerrit_change(&cfg, &rtdt, &cs, -1, Some(1000)).unwrap();
    assert_eq!(outcome.expansions.len(), 1);
    assert_eq!(outcome.expansions[0].trigger.comment_index, 1);
}

#[test]
fn nothing_is_processed_without_window_comments_or_number() {
    let cfg = config(vec![("retest".to_string(), trigger(r"(?m)^retest$", None, "echo"))]);
    let rtdt = runtime(&cfg);
    let cs = change("vpp", vec![comment(1000, "Patch Set 1:\n\nretest")], vec![patchset(1, "a")]);
    assert!(process_gerrit_change(&cfg, &rtdt, &cs, -1, None).is_none());
    let mut bare = change("vpp", Vec::new(), Vec::new());
    bare.comments = None;
    assert!(process_gerrit_change(&cfg, &rtdt, &bare, -1, Some(10)).is_none());
    let mut unnumbered = change("vpp", Vec::new(), Vec::new());
    unnumbered.number = None;
    assert!(process_gerrit_change(&cfg, &rtdt, &unnumbered, -1, Some(10)).is_none());
}

#[test]
fn missing_template_gives_no_command() {
    let cfg = config(vec![("retest".to_string(), trigger(r"(?m)^retest$", None, "echo hi"))]);
    let mut rtdt = runtime(&cfg);
    rtdt.trigger_command_templates = Vec::new();
    let cs = change("vpp", vec![comment(1000, "Patch Set 1:\n\nretest")], vec![patchset(1, "a")]);
    let outcome = process_gerrit_change(&cfg, &rtdt, &cs, -1, Some(10)).unwrap();
    assert_eq!(outcome.expansions.len(), 1);
    assert!(outcome.expansions[0].template.is_none());
    assert!(command(&outcome.expansions[0]).is_none());
}

#[test]
fn bindings_hold_the_patchset_and_the_captures() {
    let cfg = config(vec![(
        "build".to_string(),
        trigger(r"(?m)^build (?P<target>\S+)$", None, "make"),
    )]);
    let rtdt = runtime(&cfg);
    let mut second = patchset(2, "bbb");
    second.uploader.name = Some("Jane".to_string());
    let cs = change(
        "vpp",
        vec![comment(1000, "Patch Set 2:\n\nbuild arm"), comment(1001, "Patch Set 9:\n\nbuild x")],
        vec![patchset(1, "aaa"), second],
    );
    let outcome = process_gerrit_change(&cfg, &rtdt, &cs, -1, Some(10)).unwrap();
    assert_eq!(outcome.expansions.len(), 2);
    let render = |k: usize, source: &str| {
        mustache::compile_str(source)
            .unwrap()
            .render_data_to_string(&to_data(&outcome.expansions[k].bindings))
            .unwrap()
    };
    assert_eq!(
        render(0, "{{patchset.number}}|{{patchset.revision}}|{{patchset.kind}}|{{patchset.createdOn}}"),
        "2|bbb|REWORK|100"
    );
    assert_eq!(
        render(0, "{{patchset.uploader.name}}|{{patchset.author.name}}|{{patchset.sizeDeletions}}|"),
        "Jane|||"
    );
    assert_eq!(render(0, "{{#patchset.parents}}<{{.}}>{{/patchset.parents}}"), "<0000>");
    assert_eq!(render(0, "{{regex.target}}/{{regex.patchset}}"), "arm/2");
    assert_eq!(render(1, "[{{patchset.revision}}] {{regex.target}}/{{regex.patchset}}"), "[] x/9");
}

#[test]
fn patchset_is_found_by_number_or_revision() {
    let psets = vec![patchset(1, "aaa"), patchset(2, "1"), patchset(3, "ccc"), patchset(3, "ddd")];
    assert_eq!(find_patchset(&psets, 1).map(|p| p.revision.as_str()), Some("1"));
    assert_eq!(find_patchset(&psets, 3).map(|p| p.revision.as_str()), Some("ddd"));
    assert_eq!(find_patchset(&psets, 2).map(|p| p.revision.as_str()), Some("1"));
    assert!(find_patchset(&psets, 4).is_none());
    assert!(find_patchset(&Vec::new(), 1).is_none());
}
