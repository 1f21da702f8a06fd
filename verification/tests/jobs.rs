use regex::Regex;
use s5ci::database::{counter_update, CounterRows};
use s5ci::job_mgmt::{
    command_candidates, console_log_path, db_get_job, db_set_job_finished, exec_command,
    final_command,
    find_best_command, first_token, get_job_console_log_path, get_job_name, get_job_path,
    get_job_url, get_min_job_counter, get_workspace_path, job_environment,
    job_group_name_from_cmd, job_id_of, job_is_listed, job_state, kill_decision, new_job,
    handed_instance, instance_variable, parent_job_from_env, prepare_child_command,
    run_job_decision, set_command_pid, set_job_status, spawn_command, spawn_job_group,
    ExecAction, ExecEvent, ExecPhase, JobStart, JobState, ParentJob, RunJobDecision,
};
use s5ci::models::job;
use s5ci::runtime_data::{s5ciAction, s5ciRunJobArgs, s5ciRuntimeData};
use s5ci::s5ci_config::{
    s5AutorestartConfig, s5GerritQuery, s5GerritVote, s5SshAuth, s5SshAuthAgent, s5ciConfig,
    s5ciDirectSshPoll, s5ciJobs, s5ciPollGerrit, s5ciPollType,
};

fn config() -> s5ciConfig {
    s5ciConfig {
        default_auth: s5SshAuth::auth_agent(s5SshAuthAgent { username: "ci".to_string() }),
        server: s5ciPollGerrit {
            address: "127.0.0.1".to_string(),
            port: 29418,
            poll_type: s5ciPollType::direct_ssh(s5ciDirectSshPoll { auth: None }),
            poll_wait_ms: None,
            syncing_poll_wait_ms: None,
            sync_horizon_sec: None,
        },
        default_query: s5GerritQuery { filter: "status:open".to_string(), options: "--comments".to_string() },
        default_vote: s5GerritVote {
            success: "--verified +1".to_string(),
            failure: "--verified -1".to_string(),
            clear: "--verified 0".to_string(),
        },
        default_batch_command: None,
        default_sync_horizon_sec: None,
        default_regex_trigger_delay_sec: None,
        command_rootdir: "/ci/scripts".to_string(),
        triggers: None,
        cron_triggers: None,
        patchset_extract_regex: "^Patch Set (?P<patchset>[0-9]+):".to_string(),
        hostname: "ci".to_string(),
        install_rootdir: "/ci".to_string(),
        autorestart: s5AutorestartConfig { on_config_change: false, on_exe_change: false },
        db_url: "db.sqlite3".to_string(),
        jobs: s5ciJobs { rootdir: "/ci/jobs".to_string(), root_url: "http://ci/jobs".to_string() },
        per_project_config: None,
    }
}

fn runtime(sandbox_level: u32, trigger_event_id: Option<&str>) -> s5ciRuntimeData {
    s5ciRuntimeData {
        config_path: "/ci/config.yaml".to_string(),
        sandbox_level,
        patchset_extract_regex: Regex::new("^Patch Set (?P<patchset>[0-9]+):").unwrap(),
        trigger_regexes: Vec::new(),
        trigger_command_templates: Vec::new(),
        cron_trigger_schedules: Vec::new(),
        action: s5ciAction::Loop,
        changeset_id: None,
        patchset_id: None,
        real_s5ci_exe: "/ci/bin/s5ci".to_string(),
        trigger_event_id: trigger_event_id.map(|s| s.to_string()),
        comment_value: "retest".to_string(),
    }
}

fn start(group: &str, instance: i32) -> JobStart {
    JobStart {
        record_uuid: "u-1".to_string(),
        job_group_name: group.to_string(),
        instance_id: instance,
        job_pid: 100,
        parent_job_id: None,
        changeset_id: 4711,
        patchset_id: 2,
        command: "build-x86 now".to_string(),
        trigger_event_id: Some("ev-9".to_string()),
        started_at: 1_000_000,
    }
}

fn pair(name: &str, value: &str) -> (String, String) {
    (name.to_string(), value.to_string())
}

#[test]
fn job_record_has_finish_time_exactly_with_return_code() {
    let mut j = new_job(start("build", 3));
    assert_eq!(j.job_id, "build/3");
    assert_eq!(j.finished_at.is_some(), j.return_code.is_some());
    assert_eq!(job_state(&j), JobState::Created);
    set_command_pid(&mut j, 555);
    assert_eq!(j.command_pid, Some(555));
    assert_eq!(j.finished_at.is_some(), j.return_code.is_some());
    assert_eq!(job_state(&j), JobState::Running);
    set_job_status(&mut j, "half way", 1_000_500);
    assert_eq!(j.status_message, "half way");
    assert_eq!(j.status_updated_at, Some(1_000_500));
    assert_eq!(job_state(&j), JobState::Running);
    assert!(db_set_job_finished(&mut j, 1_002_000, Some(0)));
    assert_eq!(j.finished_at, Some(1_002_000));
    assert_eq!(j.return_code, Some(0));
    assert!(j.return_success);
    assert_eq!(job_state(&j), JobState::Succeeded);
    assert!(!db_set_job_finished(&mut j, 1_009_000, Some(1)));
    assert_eq!(j.finished_at, Some(1_002_000));
    assert_eq!(j.return_code, Some(0));
    set_job_status(&mut j, "Terminated by the operator", 1_010_000);
    assert_eq!(j.finished_at.is_some(), j.return_code.is_some());
    assert_eq!(job_state(&j), JobState::Succeeded);
}

#[test]
fn job_ended_by_a_signal_is_closed_with_the_sentinel() {
    let mut j = new_job(start("build", 4));
    set_command_pid(&mut j, 556);
    assert!(db_set_job_finished(&mut j, 1_002_000, None));
    assert_eq!(j.return_code, Some(4242));
    assert!(!j.return_success);
    assert_eq!(j.finished_at.is_some(), j.return_code.is_some());
    assert_eq!(job_state(&j), JobState::Failed);

    let mut j = new_job(start("build", 5));
    assert!(db_set_job_finished(&mut j, 1_002_000, Some(17)));
    assert_eq!(j.return_code, Some(17));
    assert!(!j.return_success);
    assert_eq!(job_state(&j), JobState::Failed);
}

#[test]
fn sandbox_level_two_plans_no_spawn() {
    for level in [2, 3] {
        let rtdt = runtime(level, None);
        assert_eq!(spawn_job_group(&rtdt, "build-x86 now"), None);
        let plan = spawn_command(&rtdt, Some(4711), Some(2), "build-x86 now", None);
        assert!(!plan.spawn);
        assert_eq!(plan.job_id, None);
        assert_eq!(plan.args, vec!["run-job", "-c", "build-x86 now", "-k"]);
        assert_eq!(plan.env.len(), 4);
        let plan = spawn_command(&rtdt, Some(4711), Some(2), "build-x86 now", Some(5));
        assert!(!plan.spawn);
        assert_eq!(plan.job_id, None);
        assert_eq!(plan.env.len(), 4);
    }
}

#[test]
fn spawn_plans_the_job_it_starts() {
    let rtdt = runtime(1, None);
    assert_eq!(spawn_job_group(&rtdt, "/ci/scripts/build-x86 now").as_deref(), Some("build-x86"));
    let plan = spawn_command(&rtdt, Some(4711), Some(2), "/ci/scripts/build-x86 now", Some(12));
    assert!(plan.spawn);
    assert_eq!(plan.job_id.as_deref(), Some("build-x86/12"));
    let rtdt = runtime(0, Some("ev-9"));
    let plan = spawn_command(&rtdt, Some(4711), Some(2), "build-x86 now", Some(0));
    assert!(plan.spawn);
    assert_eq!(plan.job_id.as_deref(), Some("build-x86/0"));
    assert_eq!(plan.args, vec!["run-job", "-c", "build-x86 now", "-k"]);
    assert_eq!(
        plan.env,
        vec![
            pair("S5CI_CONFIG", "/ci/config.yaml"),
            pair("S5CI_GERRIT_CHANGESET_ID", "4711"),
            pair("S5CI_GERRIT_PATCHSET_ID", "2"),
            pair("S5CI_GERRIT_COMMENT_VALUE", "retest"),
            pair("S5CI_TRIGGER_EVENT_ID", "ev-9"),
            pair("S5CI_JOB_INSTANCE_ID", "0"),
        ]
    );
    let plan = spawn_command(&runtime(0, None), None, None, "nightly", Some(7));
    assert_eq!(plan.job_id.as_deref(), Some("nightly/7"));
    assert_eq!(
        plan.env,
        vec![
            pair("S5CI_CONFIG", "/ci/config.yaml"),
            pair("S5CI_GERRIT_CHANGESET_ID", "0"),
            pair("S5CI_GERRIT_PATCHSET_ID", "0"),
            pair("S5CI_GERRIT_COMMENT_VALUE", "retest"),
            pair("S5CI_JOB_INSTANCE_ID", "7"),
        ]
    );
}

#[test]
fn spawn_without_a_group_or_a_number_starts_nothing() {
    let rtdt = runtime(0, None);
    assert_eq!(spawn_job_group(&rtdt, ""), None);
    for plan in [
        spawn_command(&rtdt, None, None, "", Some(3)),
        spawn_command(&rtdt, None, None, "build", None),
        spawn_command(&rtdt, None, None, "build", Some(-1)),
    ] {
        assert!(!plan.spawn);
        assert_eq!(plan.job_id, None);
        assert_eq!(plan.env.len(), 4);
    }
}

#[test]
fn the_process_started_reads_back_its_number() {
    assert_eq!(instance_variable(), "S5CI_JOB_INSTANCE_ID");
    let plan = spawn_command(&runtime(0, None), None, None, "nightly", Some(2147483647));
    let handed = plan.env.last().unwrap();
    assert_eq!(handed.0, instance_variable());
    assert_eq!(handed_instance(Some(&handed.1)), Some(2147483647));
    assert_eq!(handed_instance(Some(&"12".to_string())), Some(12));
    assert_eq!(handed_instance(Some(&"2147483648".to_string())), None);
    assert_eq!(handed_instance(Some(&"-1".to_string())), None);
    assert_eq!(handed_instance(Some(&"".to_string())), None);
    assert_eq!(handed_instance(None), None);
}

#[test]
fn job_environment_is_bit_exact() {
    let env = job_environment(&config(), &runtime(1, None), "build-x86/12", "/usr/bin:/bin", &None);
    assert_eq!(
        env,
        vec![
            pair("RUST_BACKTRACE", "1"),
            pair("PATH", "/ci/scripts:/usr/bin:/bin"),
            pair("S5CI_EXE", "/ci/bin/s5ci"),
            pair("S5CI_JOB_ID", "build-x86/12"),
            pair("S5CI_WORKSPACE", "/ci/jobs/build-x86/12/workspace"),
            pair("S5CI_CONSOLE_LOG", "/ci/jobs/build-x86/12/console.txt"),
            pair("S5CI_JOB_NAME", "build_x86_12"),
            pair("S5CI_JOB_URL", "http://ci/jobs/build-x86/12/"),
            pair("S5CI_SANDBOX_LEVEL", "1"),
            pair("S5CI_CONFIG", "/ci/config.yaml"),
        ]
    );
    let parent = parent_job_from_env(
        Some("nightly/3".to_string()),
        Some("nightly_3".to_string()),
        Some("http://ci/jobs/nightly/3/".to_string()),
    );
    let env = job_environment(&config(), &runtime(0, Some("ev-1")), "build/1", "", &parent);
    assert_eq!(env.len(), 14);
    assert_eq!(env[1], pair("PATH", "/ci/scripts:"));
    assert_eq!(env[10], pair("S5CI_PARENT_JOB_ID", "nightly/3"));
    assert_eq!(env[11], pair("S5CI_PARENT_JOB_NAME", "nightly_3"));
    assert_eq!(env[12], pair("S5CI_PARENT_JOB_URL", "http://ci/jobs/nightly/3/"));
    assert_eq!(env[13], pair("S5CI_TRIGGER_EVENT_ID", "ev-1"));
}

#[test]
fn parent_job_needs_all_three_variables() {
    assert!(parent_job_from_env(Some("a".to_string()), None, Some("c".to_string())).is_none());
    assert!(parent_job_from_env(None, None, None).is_none());
    let p: ParentJob =
        parent_job_from_env(Some("a".to_string()), Some("b".to_string()), Some("c".to_string()))
            .unwrap();
    assert_eq!((p.job_id.as_str(), p.job_name.as_str(), p.job_url.as_str()), ("a", "b", "c"));
}

#[test]
fn job_names_and_paths() {
    let cfg = config();
    assert_eq!(get_job_name("build-x86/12"), "build_x86_12");
    assert_eq!(get_job_name("a_b9"), "a_b9");
    assert_eq!(get_job_url(&cfg, "build/1"), "http://ci/jobs/build/1/");
    assert_eq!(get_job_path(&cfg, "build"), "/ci/jobs/build");
    assert_eq!(get_workspace_path(&cfg, "build/1"), "/ci/jobs/build/1/workspace");
    assert_eq!(get_job_console_log_path(&cfg, "build/1"), "/ci/jobs/build/1/console.txt");
    assert_eq!(console_log_path(&cfg, "build/1", "-err"), "/ci/jobs/build/1/console-err.txt");
    assert_eq!(job_id_of("build", 12), "build/12");
    assert_eq!(job_id_of("build", -1), "build/-1");
    assert_eq!(get_min_job_counter(0), 0);
    assert_eq!(get_min_job_counter(17), 17);
    assert_eq!(get_min_job_counter(usize::MAX), i32::MAX);
}

#[test]
fn job_group_is_the_basename_of_the_first_word() {
    assert_eq!(first_token("build-x86 now please"), "build-x86");
    assert_eq!(first_token("single"), "single");
    assert_eq!(first_token(" leading"), "");
    assert_eq!(first_token(""), "");
    assert_eq!(job_group_name_from_cmd("build-x86 now").as_deref(), Some("build-x86"));
    assert_eq!(job_group_name_from_cmd("/ci/scripts/build-x86 now").as_deref(), Some("build-x86"));
    assert_eq!(job_group_name_from_cmd("scripts/run/ arg").as_deref(), Some("run"));
    assert_eq!(job_group_name_from_cmd(""), None);
    assert_eq!(job_group_name_from_cmd(" x"), None);
    assert_eq!(job_group_name_from_cmd("scripts/.. x"), None);
    assert_eq!(job_group_name_from_cmd("/"), None);
}

#[test]
fn command_candidates_shrink_word_by_word() {
    assert_eq!(
        command_candidates("build-x86-debug"),
        vec!["build-x86-debug", "build-x86", "build"]
    );
    assert_eq!(command_candidates("build--x"), vec!["build--x", "build"]);
    assert_eq!(command_candidates("build-"), vec!["build-", "build"]);
    assert_eq!(command_candidates("-x"), vec!["-x"]);
    assert_eq!(command_candidates("plain"), vec!["plain"]);
    assert!(command_candidates("").is_empty());
}

#[test]
fn best_command_is_the_longest_that_is_a_file() {
    let names = command_candidates("build-x86-debug");
    assert_eq!(find_best_command("build-x86-debug", &names, &vec![false, true, true]), "build-x86");
    assert_eq!(find_best_command("build-x86-debug", &names, &vec![false, false, true]), "build");
    assert_eq!(
        find_best_command("build-x86-debug", &names, &vec![true, true, true]),
        "build-x86-debug"
    );
    assert_eq!(
        find_best_command("build-x86-debug", &names, &vec![false, false, false]),
        "build-x86-debug"
    );
    assert_eq!(find_best_command("build-x86-debug", &names, &vec![]), "build-x86-debug");
}

#[test]
fn final_command_turns_the_rest_of_the_name_into_an_argument() {
    assert_eq!(
        final_command("build-x86-debug fast", "build", "build-x86-debug"),
        "build x86-debug fast"
    );
    assert_eq!(
        final_command("build-x86-debug fast", "build-x86", "build-x86-debug"),
        "build-x86 debug fast"
    );
    assert_eq!(
        final_command("build-x86-debug fast", "build-x86-debug", "build-x86-debug"),
        "build-x86-debug fast"
    );
    assert_eq!(final_command("ab", "abc", "abcd"), "ab");
}

#[test]
fn kill_is_for_running_jobs_with_a_known_process() {
    let mut j = new_job(start("build", 1));
    assert_eq!(kill_decision(&j, "S5CI CLI"), None);
    set_command_pid(&mut j, 777);
    assert_eq!(
        kill_decision(&j, "S5CI CLI"),
        Some((777, "Terminated by the S5CI CLI".to_string()))
    );
    assert_eq!(
        kill_decision(&j, "next job"),
        Some((777, "Terminated by the next job".to_string()))
    );
    db_set_job_finished(&mut j, 5, Some(1));
    assert_eq!(kill_decision(&j, "S5CI CLI"), None);
}

#[test]
fn run_job_decision_omits_or_kills() {
    let args = |omit_if_ok, kill_previous| s5ciRunJobArgs {
        cmd: "build".to_string(),
        omit_if_ok,
        kill_previous,
    };
    let mut done: job = new_job(start("build", 1));
    db_set_job_finished(&mut done, 5, Some(0));
    let mut failed = new_job(start("build", 2));
    db_set_job_finished(&mut failed, 5, Some(2));
    let running = new_job(start("build", 3));
    assert_eq!(run_job_decision(&args(true, true), Some(&done)), RunJobDecision::Omit);
    assert_eq!(
        run_job_decision(&args(false, true), Some(&done)),
        RunJobDecision::Run { kill_previous: false }
    );
    assert_eq!(
        run_job_decision(&args(true, true), Some(&failed)),
        RunJobDecision::Run { kill_previous: false }
    );
    assert_eq!(
        run_job_decision(&args(true, true), Some(&running)),
        RunJobDecision::Run { kill_previous: true }
    );
    assert_eq!(
        run_job_decision(&args(true, false), Some(&running)),
        RunJobDecision::Run { kill_previous: false }
    );
    assert_eq!(
        run_job_decision(&args(true, true), None),
        RunJobDecision::Run { kill_previous: false }
    );
}

#[test]
fn finished_jobs_leave_the_list_after_ten_seconds() {
    let mut j = new_job(start("build", 1));
    assert!(job_is_listed(&j, 99_000_000));
    db_set_job_finished(&mut j, 50_000, Some(0));
    assert!(job_is_listed(&j, 50_000));
    assert!(job_is_listed(&j, 60_000));
    assert!(!job_is_listed(&j, 60_001));
    assert!(job_is_listed(&j, i64::MIN));
}

#[test]
fn run_of_a_command_goes_from_insert_to_return() {
    let (phase, action) = exec_command(ExecPhase::Idle, ExecEvent::Start);
    assert_eq!(action, ExecAction::InsertRecord);
    let (phase, action) = exec_command(phase, ExecEvent::Done);
    assert_eq!(action, ExecAction::SpawnCommand);
    let (phase, action) = exec_command(phase, ExecEvent::Spawned { pid: 42 });
    assert_eq!(action, ExecAction::RecordPid(42));
    let (phase, action) = exec_command(phase, ExecEvent::Done);
    assert_eq!(action, ExecAction::AnnounceStart);
    let (phase, action) = exec_command(phase, ExecEvent::Done);
    assert_eq!(action, ExecAction::Poll);
    let (phase, action) = exec_command(phase, ExecEvent::StillRunning);
    assert_eq!(action, ExecAction::Sleep(5000));
    let (phase, action) = exec_command(phase, ExecEvent::Done);
    assert_eq!(action, ExecAction::Poll);
    let (phase, action) = exec_command(phase, ExecEvent::Exited { code: Some(3) });
    assert_eq!(action, ExecAction::Finalize { code: Some(3) });
    let (phase, action) = exec_command(phase, ExecEvent::Done);
    assert_eq!(action, ExecAction::Return { code: Some(3) });
    assert_eq!(phase, ExecPhase::Finished);
    let (phase, action) = exec_command(phase, ExecEvent::Done);
    assert_eq!((phase, action), (ExecPhase::Finished, ExecAction::Abort));
    let (phase, action) = exec_command(ExecPhase::Spawning, ExecEvent::Failed);
    assert_eq!((phase, action), (ExecPhase::Finished, ExecAction::Abort));
}

#[test]
fn instance_numbers_grow_across_sequential_spawns() {
    let mut stored: Option<i32> = None;
    let mut last: Option<i32> = None;
    for on_disk in [0usize, 1, 2, 2, 7, 3] {
        let rows = match stored {
            Some(v) => CounterRows::One(v),
            None => CounterRows::Missing,
        };
        let write = counter_update(rows, get_min_job_counter(on_disk)).unwrap();
        stored = Some(write.store);
        let j = new_job(start("build", write.value));
        if let Some(previous) = last {
            assert!(j.instance_id > previous);
        }
        last = Some(j.instance_id);
    }
    assert_eq!(last, Some(8));
}

#[test]
fn child_command_is_prepared_from_its_parts() {
    let child = prepare_child_command(
        &config(),
        &runtime(0, None),
        "build-x86 fast",
        "build-x86",
        7,
        "build",
        "/bin",
        &None,
        "",
    );
    assert_eq!(child.job_id, "build-x86/7");
    assert_eq!(child.log_fname, "/ci/jobs/build-x86/7/console.txt");
    assert_eq!(child.shell_command, "build x86 fast");
    assert_eq!(child.env.len(), 10);
    assert_eq!(child.env[3], pair("S5CI_JOB_ID", "build-x86/7"));
    assert_eq!(child.env[6], pair("S5CI_JOB_NAME", "build_x86_7"));
    assert_eq!(child.unset, vec!["S5CI_JOB_INSTANCE_ID"]);
}

#[test]
fn a_job_is_found_if_exactly_one_record_carries_its_id() {
    let one = new_job(start("build", 1));
    let two = new_job(start("build", 1));
    assert_eq!(db_get_job(vec![one.clone()], "build/1"), Ok(one.clone()));
    assert_eq!(
        db_get_job(Vec::new(), "build/1"),
        Err("models::job with job_id == build/1 not found even deleted".to_string())
    );
    assert_eq!(
        db_get_job(vec![one, two], "build/1"),
        Err("more than one models::job with job_id == build/1 even deleted".to_string())
    );
}
