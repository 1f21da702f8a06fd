//! What the daemon derives from its configuration at startup: compiled
//! trigger patterns, command templates and cron schedules, and the action
//! that the command line asked for.

use crate::gerrit_types::GerritVoteAction;
use crate::pattern::{compile, regex_compiles, regex_source};
use crate::s5ci_config::{
    names_unique, repeated_name, s5CronTrigger, s5GerritTrigger, s5TriggerAction, s5ciConfig,
};
use crate::schedule::{cron_expression_parses, parse_schedule, schedule_source};
use cron::Schedule;
use regex::Regex;
use vstd::prelude::*;

verus! {

/// A configuration that cannot be used.  A variant that is about a trigger
/// carries the trigger's name.
#[derive(Debug, Clone)]
pub enum ConfigError {
    /// The match pattern of a trigger does not compile.
    BadTriggerRegex(String),
    /// The suppression pattern of a trigger does not compile.
    BadSuppressRegex(String),
    /// The schedule expression of a cron trigger does not parse.
    BadCronExpression(String),
    /// Two comment triggers carry this name.
    DuplicateTrigger(String),
    /// Two cron triggers carry this name.
    DuplicateCronTrigger(String),
    /// The pattern that reads a patchset number from a comment does not
    /// compile.
    BadPatchsetExtractRegex,
}

impl ConfigError {
    /// The name of the trigger at fault; empty where none is.
    pub open spec fn spec_trigger_name(&self) -> Seq<char> {
        match self {
            ConfigError::BadTriggerRegex(name) => name@,
            ConfigError::BadSuppressRegex(name) => name@,
            ConfigError::BadCronExpression(name) => name@,
            ConfigError::DuplicateTrigger(name) => name@,
            ConfigError::DuplicateCronTrigger(name) => name@,
            ConfigError::BadPatchsetExtractRegex => Seq::empty(),
        }
    }
}

/// The compiled patterns of one comment trigger.
#[derive(Debug)]
pub struct CommentTriggerRegex {
    pub r: Regex,
    pub r_suppress: Option<Regex>,
    pub name: String,
}

/// The parsed schedule of one cron trigger, with the expression it was
/// parsed from.
#[derive(Debug)]
pub struct CronTriggerSchedule {
    pub schedule: Schedule,
    pub cron: String,
    pub name: String,
}

impl CronTriggerSchedule {
    /// Parses a schedule expression for the trigger `name`.  Fails exactly
    /// on an expression that does not parse.
    pub fn from_str(cron_str: &str, name: &str) -> (r: Result<CronTriggerSchedule, ConfigError>)
        ensures
            r.is_ok() == cron_expression_parses(cron_str@),
            r matches Ok(s) ==> s.name@ == name@ && s.cron@ == cron_str@ && schedule_source(
                s.schedule,
            ) == cron_str@,
            r matches Err(e) ==> e matches ConfigError::BadCronExpression(n) && n@ == name@,
    {
        match parse_schedule(cron_str) {
            Ok(schedule) => Ok(
                CronTriggerSchedule {
                    schedule,
                    cron: cron_str.to_owned(),
                    name: name.to_owned(),
                },
            ),
            Err(_) => Err(ConfigError::BadCronExpression(name.to_owned())),
        }
    }
}

#[allow(non_camel_case_types)]
#[derive(Debug, Clone)]
pub struct s5ciRunJobArgs {
    pub cmd: String,
    pub omit_if_ok: bool,
    pub kill_previous: bool,
}

/// A saved server reply to process, with the bounds of the poll that it
/// answers, in seconds since the epoch.
#[allow(non_camel_case_types)]
#[derive(Debug, Clone)]
pub struct s5ciProcessGerritReplyArgs {
    pub input_file: String,
    pub before: Option<i64>,
    pub after: Option<i64>,
}

#[allow(non_camel_case_types)]
#[derive(Debug, Clone)]
pub enum s5ciAction {
    Loop,
    ListJobs,
    SetStatus(String, String),
    RunJob(s5ciRunJobArgs),
    ProcessGerritReply(s5ciProcessGerritReplyArgs),
    KillJob(String),
    GerritCommand(String),
    MakeReview(Option<GerritVoteAction>, String),
}

#[allow(non_camel_case_types)]
#[derive(Debug)]
pub struct s5ciRuntimeData {
    pub config_path: String,
    pub sandbox_level: u32,
    pub patchset_extract_regex: Regex,
    pub trigger_regexes: Vec<CommentTriggerRegex>,
    pub trigger_command_templates: Vec<(String, String)>,
    pub cron_trigger_schedules: Vec<CronTriggerSchedule>,
    pub action: s5ciAction,
    pub changeset_id: Option<u32>,
    pub patchset_id: Option<u32>,
    pub real_s5ci_exe: String,
    pub trigger_event_id: Option<String>,
    pub comment_value: String,
}

/// The cron triggers of a configuration; none if it has no such table.
pub open spec fn spec_cron_triggers(config: &s5ciConfig) -> Seq<(String, s5CronTrigger)> {
    match config.cron_triggers {
        Some(t) => t@,
        None => Seq::empty(),
    }
}

/// The comment triggers of a configuration; none if it has no such table.
pub open spec fn spec_triggers(config: &s5ciConfig) -> Seq<(String, s5GerritTrigger)> {
    match config.triggers {
        Some(t) => t@,
        None => Seq::empty(),
    }
}

/// Whether the schedule expression of a cron trigger parses.
pub open spec fn cron_trigger_usable(entry: (String, s5CronTrigger)) -> bool {
    cron_expression_parses(entry.1.cron@)
}

/// Parses the schedule of every cron trigger, in the order of the
/// configuration.  Fails on the first trigger whose expression does not
/// parse, and names it.
pub fn get_cron_trigger_schedules(config: &s5ciConfig) -> (r: Result<
    Vec<CronTriggerSchedule>,
    ConfigError,
>)
    ensures
        r.is_ok() == forall|i: int|
            0 <= i < spec_cron_triggers(config).len() ==> cron_trigger_usable(
                #[trigger] spec_cron_triggers(config)[i],
            ),
        r matches Ok(out) ==> out@.len() == spec_cron_triggers(config).len() && forall|i: int|
            0 <= i < out@.len() ==> (#[trigger] out@[i]).name@ == spec_cron_triggers(config)[i].0@
                && out@[i].cron@ == spec_cron_triggers(config)[i].1.cron@ && schedule_source(
                out@[i].schedule,
            ) == out@[i].cron@,
        r matches Err(e) ==> exists|i: int|
            0 <= i < spec_cron_triggers(config).len() && !cron_trigger_usable(
                #[trigger] spec_cron_triggers(config)[i],
            ) && e == ConfigError::BadCronExpression(spec_cron_triggers(config)[i].0) && forall|
                j: int,
            |
                0 <= j < i ==> cron_trigger_usable(#[trigger] spec_cron_triggers(config)[j]),
{
    let mut out: Vec<CronTriggerSchedule> = Vec::new();
    if let Some(cron_triggers) = &config.cron_triggers {
        let mut i: usize = 0;
        while i < cron_triggers.len()
            invariant
                i <= cron_triggers@.len(),
                cron_triggers@ == spec_cron_triggers(config),
                out@.len() == i,
                forall|j: int| 0 <= j < i ==> cron_trigger_usable(#[trigger] cron_triggers@[j]),
                forall|j: int|
                    0 <= j < i ==> (#[trigger] out@[j]).name@ == cron_triggers@[j].0@
                        && out@[j].cron@ == cron_triggers@[j].1.cron@ && schedule_source(
                        out@[j].schedule,
                    ) == out@[j].cron@,
            decreases cron_triggers.len() - i,
        {
            let entry = &cron_triggers[i];
            match parse_schedule(entry.1.cron.as_str()) {
                Ok(schedule) => {
                    out.push(
                        CronTriggerSchedule {
                            schedule,
                            cron: entry.1.cron.clone(),
                            name: entry.0.clone(),
                        },
                    );
                },
                Err(_) => {
                    assert(!cron_trigger_usable(cron_triggers@[i as int]));
                    return Err(ConfigError::BadCronExpression(entry.0.clone()));
                },
            }
            i += 1;
        }
    }
    Ok(out)
}

/// Whether both patterns of a comment trigger compile.
pub open spec fn trigger_usable(entry: (String, s5GerritTrigger)) -> bool {
    &&& regex_compiles(entry.1.regex@)
    &&& entry.1.suppress_regex matches Some(s) ==> regex_compiles(s@)
}

/// The error that an unusable comment trigger gives: its match pattern is
/// reported before its suppression pattern.
pub open spec fn trigger_fault(entry: (String, s5GerritTrigger)) -> ConfigError {
    if !regex_compiles(entry.1.regex@) {
        ConfigError::BadTriggerRegex(entry.0)
    } else {
        ConfigError::BadSuppressRegex(entry.0)
    }
}

/// Whether the patterns of `compiled` are those of the trigger `entry`,
/// compiled, under the trigger's name.
pub open spec fn compiled_from(compiled: CommentTriggerRegex, entry: (String, s5GerritTrigger)) -> bool {
    &&& compiled.name@ == entry.0@
    &&& regex_source(compiled.r) == entry.1.regex@
    &&& match (compiled.r_suppress, entry.1.suppress_regex) {
        (Some(re), Some(source)) => regex_source(re) == source@,
        (None, None) => true,
        _ => false,
    }
}

/// Compiles the patterns of every comment trigger, in the order of the
/// configuration.  Fails on the first trigger with a pattern that does not
/// compile, and names it.
pub fn get_trigger_regexes(config: &s5ciConfig) -> (r: Result<
    Vec<CommentTriggerRegex>,
    ConfigError,
>)
    ensures
        r.is_ok() == forall|i: int|
            0 <= i < spec_triggers(config).len() ==> trigger_usable(
                #[trigger] spec_triggers(config)[i],
            ),
        r matches Ok(out) ==> out@.len() == spec_triggers(config).len() && forall|i: int|
            0 <= i < out@.len() ==> compiled_from(#[trigger] out@[i], spec_triggers(config)[i]),
        r matches Err(e) ==> exists|i: int|
            0 <= i < spec_triggers(config).len() && !trigger_usable(
                #[trigger] spec_triggers(config)[i],
            ) && e == trigger_fault(spec_triggers(config)[i]) && forall|j: int|
                0 <= j < i ==> trigger_usable(#[trigger] spec_triggers(config)[j]),
{
    let mut out: Vec<CommentTriggerRegex> = Vec::new();
    if let Some(triggers) = &config.triggers {
        let mut i: usize = 0;
        while i < triggers.len()
            invariant
                i <= triggers@.len(),
                triggers@ == spec_triggers(config),
                out@.len() == i,
                forall|j: int| 0 <= j < i ==> trigger_usable(#[trigger] triggers@[j]),
                forall|j: int|
                    0 <= j < i ==> compiled_from(#[trigger] out@[j], triggers@[j]),
            decreases triggers.len() - i,
        {
            let entry = &triggers[i];
            let r = match compile(entry.1.regex.as_str()) {
                Ok(r) => r,
                Err(_) => {
                    assert(!trigger_usable(triggers@[i as int]));
                    return Err(ConfigError::BadTriggerRegex(entry.0.clone()));
                },
            };
            let r_suppress = match &entry.1.suppress_regex {
                Some(source) => match compile(source.as_str()) {
                    Ok(r) => Some(r),
                    Err(_) => {
                        assert(!trigger_usable(triggers@[i as int]));
                        return Err(ConfigError::BadSuppressRegex(entry.0.clone()));
                    },
                },
                None => None,
            };
            out.push(CommentTriggerRegex { r, r_suppress, name: entry.0.clone() });
            i += 1;
        }
    }
    Ok(out)
}

/// The positions of the triggers that run a command, among the first `n`.
pub open spec fn spec_command_positions(triggers: Seq<(String, s5GerritTrigger)>, n: int) -> Seq<
    int,
>
    decreases n,
{
    if n <= 0 {
        Seq::empty()
    } else if triggers[n - 1].1.action is command {
        spec_command_positions(triggers, n - 1).push(n - 1)
    } else {
        spec_command_positions(triggers, n - 1)
    }
}

/// The positions listed among the first `n` triggers are positions of
/// command triggers below `n`, and the list only grows with `n`.
pub proof fn lemma_command_positions(triggers: Seq<(String, s5GerritTrigger)>, m: int, n: int)
    requires
        0 <= m <= n <= triggers.len(),
    ensures
        spec_command_positions(triggers, m).len() <= spec_command_positions(triggers, n).len(),
        forall|k: int|
            0 <= k < spec_command_positions(triggers, n).len() ==> 0 <= (
            #[trigger] spec_command_positions(triggers, n)[k]) < n && triggers[spec_command_positions(
                triggers,
                n,
            )[k]].1.action is command,
        (m < n && triggers[m].1.action is command) ==> spec_command_positions(triggers, n).len()
            > 0,
    decreases n,
{
    if n > 0 {
        if m < n {
            lemma_command_positions(triggers, m, n - 1);
        } else {
            lemma_command_positions(triggers, n - 1, n - 1);
        }
    }
}

/// The command template of every comment trigger that runs a command, in
/// the order of the configuration, each under the name of its trigger.
pub fn get_trigger_command_templates(config: &s5ciConfig) -> (out: Vec<(String, String)>)
    ensures
        ({
            let positions = spec_command_positions(
                spec_triggers(config),
                spec_triggers(config).len() as int,
            );
            &&& out@.len() == positions.len()
            &&& forall|k: int|
                0 <= k < out@.len() ==> {
                    &&& 0 <= positions[k] < spec_triggers(config).len()
                    &&& (#[trigger] out@[k]).0@ == spec_triggers(config)[positions[k]].0@
                    &&& spec_triggers(config)[positions[k]].1.action
                        matches s5TriggerAction::command(cmd) && cmd@ == out@[k].1@
                }
        }),
{
    let mut out: Vec<(String, String)> = Vec::new();
    if let Some(triggers) = &config.triggers {
        let mut i: usize = 0;
        while i < triggers.len()
            invariant
                i <= triggers@.len(),
                triggers@ == spec_triggers(config),
                out@.len() == spec_command_positions(triggers@, i as int).len(),
                forall|k: int|
                    0 <= k < out@.len() ==> {
                        let at = spec_command_positions(triggers@, i as int)[k];
                        &&& 0 <= at < i
                        &&& (#[trigger] out@[k]).0@ == triggers@[at].0@
                        &&& triggers@[at].1.action matches s5TriggerAction::command(cmd) && cmd@
                            == out@[k].1@
                    },
            decreases triggers.len() - i,
        {
            let entry = &triggers[i];
            proof {
                lemma_command_positions(triggers@, i as int, i as int + 1);
            }
            if let s5TriggerAction::command(cmd) = &entry.1.action {
                out.push((entry.0.clone(), cmd.clone()));
            }
            i += 1;
        }
        proof {
            lemma_command_positions(triggers@, 0, triggers@.len() as int);
        }
    }
    out
}

/// What holds of a configuration that can be used: in each of its two
/// tables of triggers every name occurs once, as in the file that it was
/// read from.
pub open spec fn config_names_unique(config: &s5ciConfig) -> bool {
    names_unique(spec_triggers(config)) && names_unique(spec_cron_triggers(config))
}

/// Checks that no trigger name occurs twice.  Fails on the first name that
/// is repeated, among the comment triggers first, and names it.
pub fn check_trigger_names(config: &s5ciConfig) -> (r: Result<(), ConfigError>)
    ensures
        r.is_ok() == config_names_unique(config),
        r matches Err(e) ==> {
            ||| !names_unique(spec_triggers(config)) && exists|j: int|
                0 <= j < spec_triggers(config).len() && e == ConfigError::DuplicateTrigger(
                    (#[trigger] spec_triggers(config)[j]).0,
                )
            ||| names_unique(spec_triggers(config)) && exists|j: int|
                0 <= j < spec_cron_triggers(config).len() && e
                    == ConfigError::DuplicateCronTrigger(
                    (#[trigger] spec_cron_triggers(config)[j]).0,
                )
        },
{
    if let Some(triggers) = &config.triggers {
        if let Some(j) = repeated_name(triggers) {
            assert(spec_triggers(config)[j as int] == triggers@[j as int]);
            return Err(ConfigError::DuplicateTrigger(triggers[j].0.clone()));
        }
    }
    if let Some(cron_triggers) = &config.cron_triggers {
        if let Some(j) = repeated_name(cron_triggers) {
            assert(spec_cron_triggers(config)[j as int] == cron_triggers@[j as int]);
            return Err(ConfigError::DuplicateCronTrigger(cron_triggers[j].0.clone()));
        }
    }
    Ok(())
}

/// Compiles the pattern that reads a patchset number from a comment.
/// Fails exactly on a pattern that does not compile.
pub fn get_patchset_extract_regex(config: &s5ciConfig) -> (r: Result<Regex, ConfigError>)
    ensures
        r.is_ok() == regex_compiles(config.patchset_extract_regex@),
        r matches Ok(re) ==> regex_source(re) == config.patchset_extract_regex@,
        r matches Err(e) ==> e == ConfigError::BadPatchsetExtractRegex,
{
    match compile(config.patchset_extract_regex.as_str()) {
        Ok(re) => Ok(re),
        Err(_) => Err(ConfigError::BadPatchsetExtractRegex),
    }
}

} // verus!
