//! Jobs: how they are named, where they live, what their processes are
//! told, and how their records move from started to finished.

use crate::database::{lemma_allocations_increase, spec_allocations};
use crate::models::job;
use crate::paths::{file_name, path_file_name};
use crate::runtime_data::{s5ciRunJobArgs, s5ciRuntimeData};
use crate::s5ci_config::s5ciConfig;
use crate::text::{
    append, chars_of, char_is_alnum, decimal, i64_to_string, is_alnum, lemma_decimal_parses,
    parse_u32, signed_decimal, spec_parse_u32, string_of, u64_to_string,
};
use vstd::prelude::*;

verus! {

/// Exit status recorded for a job whose command ended without one, as
/// when a signal ended it.
pub const UNKNOWN_EXIT_STATUS: i32 = 4242;

/// From this sandbox level on, no process is started.
pub const SANDBOX_NO_SPAWN: u32 = 2;

/// The pause between two looks at a running command, in milliseconds.
pub const JOB_POLL_MS: u64 = 5000;

/// The address under which a job's pages are served.
pub open spec fn spec_job_url(root_url: Seq<char>, job_id: Seq<char>) -> Seq<char> {
    root_url + seq!['/'] + job_id + seq!['/']
}

pub fn get_job_url(config: &s5ciConfig, job_id: &str) -> (url: String)
    ensures
        url@ == spec_job_url(config.jobs.root_url@, job_id@),
{
    proof {
        reveal_strlit("/");
    }
    assert("/"@ =~= seq!['/']);
    let mut url = config.jobs.root_url.clone();
    append(&mut url, "/");
    append(&mut url, job_id);
    append(&mut url, "/");
    url
}

/// A job's id as a name: every character that is not a letter, a digit or
/// an underscore becomes an underscore.
pub open spec fn spec_job_name(job_id: Seq<char>) -> Seq<char> {
    Seq::new(
        job_id.len(),
        |i: int|
            if is_alnum(job_id[i]) || job_id[i] == '_' {
                job_id[i]
            } else {
                '_'
            },
    )
}

pub fn get_job_name(job_id: &str) -> (name: String)
    ensures
        name@ == spec_job_name(job_id@),
{
    let v = chars_of(job_id);
    let mut out: Vec<char> = Vec::new();
    let mut i: usize = 0;
    while i < v.len()
        invariant
            v@ == job_id@,
            i <= v.len(),
            out@.len() == i,
            forall|j: int| 0 <= j < i ==> out@[j] == spec_job_name(job_id@)[j],
        decreases v.len() - i,
    {
        let c = v[i];
        if char_is_alnum(c) || c == '_' {
            out.push(c);
        } else {
            out.push('_');
        }
        i += 1;
    }
    assert(out@ =~= spec_job_name(job_id@));
    string_of(&out)
}

/// A job's name holds letters, digits and underscores only, as many as its
/// id has characters.
pub proof fn lemma_job_name_is_plain(job_id: Seq<char>)
    ensures
        spec_job_name(job_id).len() == job_id.len(),
        forall|i: int|
            0 <= i < job_id.len() ==> is_alnum(#[trigger] spec_job_name(job_id)[i])
                || spec_job_name(job_id)[i] == '_',
{
}

/// The first word of a command: what stands before its first space.
pub open spec fn spec_first_token(cmd: Seq<char>) -> Seq<char>
    decreases cmd.len(),
{
    if cmd.len() == 0 || cmd[0] == ' ' {
        Seq::empty()
    } else {
        seq![cmd[0]] + spec_first_token(cmd.drop_first())
    }
}

/// The first word of a command is the longest prefix without a space.
pub proof fn lemma_first_token(cmd: Seq<char>)
    ensures
        spec_first_token(cmd).is_prefix_of(cmd),
        forall|i: int|
            0 <= i < spec_first_token(cmd).len() ==> #[trigger] spec_first_token(cmd)[i] != ' ',
        spec_first_token(cmd).len() < cmd.len() ==> cmd[spec_first_token(cmd).len() as int] == ' ',
    decreases cmd.len(),
{
    if cmd.len() > 0 && cmd[0] != ' ' {
        let rest = cmd.drop_first();
        lemma_first_token(rest);
        let token = spec_first_token(cmd);
        assert(token =~= seq![cmd[0]] + spec_first_token(rest));
        assert forall|i: int| 0 <= i < token.len() implies token[i] == cmd[i] by {
            if i > 0 {
                assert(token[i] == spec_first_token(rest)[i - 1]);
                assert(rest[i - 1] == cmd[i]);
            }
        }
        assert(token =~= cmd.subrange(0, token.len() as int));
        if token.len() < cmd.len() {
            assert(rest[spec_first_token(rest).len() as int] == cmd[token.len() as int]);
        }
    } else {
        assert(spec_first_token(cmd) =~= cmd.subrange(0, 0));
    }
}

/// The first word of a command.
pub fn first_token(cmd: &str) -> (token: String)
    ensures
        token@ == spec_first_token(cmd@),
{
    let v = chars_of(cmd);
    let mut out: Vec<char> = Vec::new();
    let mut i: usize = 0;
    assert(v@.skip(0) =~= v@);
    while i < v.len() && v[i] != ' '
        invariant
            v@ == cmd@,
            i <= v.len(),
            out@ + spec_first_token(v@.skip(i as int)) == spec_first_token(cmd@),
        decreases v.len() - i,
    {
        let ghost rest = v@.skip(i as int);
        assert(rest[0] == v@[i as int]);
        assert(rest.drop_first() =~= v@.skip(i + 1));
        out.push(v[i]);
        assert(out@ + spec_first_token(v@.skip(i + 1)) =~= out@.drop_last() + spec_first_token(
            rest,
        ));
        i += 1;
    }
    proof {
        let rest = v@.skip(i as int);
        if i < v.len() {
            assert(rest[0] == v@[i as int]);
        }
        assert(spec_first_token(rest) =~= Seq::<char>::empty());
        assert(out@ + spec_first_token(rest) =~= out@);
    }
    string_of(&out)
}

/// The name of the group that a command's jobs belong to: the last path
/// component of the command's first word.
pub open spec fn spec_job_group_name(cmd: Seq<char>) -> Option<Seq<char>> {
    path_file_name(spec_first_token(cmd))
}

/// The name of the group that a command's jobs belong to; `None` for a
/// command whose first word names no file, such as the empty command.
pub fn job_group_name_from_cmd(cmd: &str) -> (name: Option<String>)
    ensures
        name.deep_view() == spec_job_group_name(cmd@),
{
    let token = first_token(cmd);
    file_name(token.as_str())
}

/// A job's full id: its group and its number in the group.
pub open spec fn spec_job_id(group: Seq<char>, instance: i32) -> Seq<char> {
    group + seq!['/'] + signed_decimal(instance as int)
}

pub fn job_id_of(group: &str, instance: i32) -> (id: String)
    ensures
        id@ == spec_job_id(group@, instance),
{
    proof {
        reveal_strlit("/");
    }
    assert("/"@ =~= seq!['/']);
    let mut id = group.to_owned();
    append(&mut id, "/");
    let number = i64_to_string(instance as i64);
    append(&mut id, number.as_str());
    id
}

/// The number of entries of a group's directory as a floor for the group's
/// counter: the count itself, or the largest counter value where the count
/// is larger.
pub fn get_min_job_counter(entries_on_disk: usize) -> (floor: i32)
    ensures
        floor == if entries_on_disk <= i32::MAX {
            entries_on_disk as int
        } else {
            i32::MAX as int
        },
{
    if entries_on_disk <= 0x7fff_ffff {
        entries_on_disk as i32
    } else {
        0x7fff_ffff
    }
}

/// The directory of a job group, or of a job, under the jobs' root.
pub open spec fn spec_job_path(rootdir: Seq<char>, job_id: Seq<char>) -> Seq<char> {
    rootdir + seq!['/'] + job_id
}

pub fn get_job_path(config: &s5ciConfig, job_id: &str) -> (path: String)
    ensures
        path@ == spec_job_path(config.jobs.rootdir@, job_id@),
{
    proof {
        reveal_strlit("/");
    }
    assert("/"@ =~= seq!['/']);
    let mut path = config.jobs.rootdir.clone();
    append(&mut path, "/");
    append(&mut path, job_id);
    path
}

/// The directory in which a job's command runs.
pub open spec fn spec_workspace_path(rootdir: Seq<char>, job_id: Seq<char>) -> Seq<char> {
    spec_job_path(rootdir, job_id) + "/workspace"@
}

pub fn get_workspace_path(config: &s5ciConfig, job_id: &str) -> (path: String)
    ensures
        path@ == spec_workspace_path(config.jobs.rootdir@, job_id@),
{
    let mut path = get_job_path(config, job_id);
    append(&mut path, "/workspace");
    path
}

/// The file that takes a job's output; `suffix` tells apart the logs of
/// one job.
pub open spec fn spec_console_log_path(
    rootdir: Seq<char>,
    job_id: Seq<char>,
    suffix: Seq<char>,
) -> Seq<char> {
    spec_job_path(rootdir, job_id) + "/console"@ + suffix + ".txt"@
}

pub fn get_job_console_log_path(config: &s5ciConfig, job_id: &str) -> (path: String)
    ensures
        path@ == spec_console_log_path(config.jobs.rootdir@, job_id@, Seq::empty()),
{
    let path = console_log_path(config, job_id, "");
    proof {
        reveal_strlit("");
    }
    assert(""@ =~= Seq::<char>::empty());
    path
}

pub fn console_log_path(config: &s5ciConfig, job_id: &str, suffix: &str) -> (path: String)
    ensures
        path@ == spec_console_log_path(config.jobs.rootdir@, job_id@, suffix@),
{
    let mut path = get_job_path(config, job_id);
    append(&mut path, "/console");
    append(&mut path, suffix);
    append(&mut path, ".txt");
    path
}

/// A name without its last word: the characters after the last dash are
/// dropped.
pub open spec fn spec_trim_word(s: Seq<char>) -> Seq<char>
    decreases s.len(),
{
    if s.len() > 0 && s.last() != '-' {
        spec_trim_word(s.drop_last())
    } else {
        s
    }
}

/// A name without the dashes that end it.
pub open spec fn spec_trim_dashes(s: Seq<char>) -> Seq<char>
    decreases s.len(),
{
    if s.len() > 0 && s.last() == '-' {
        spec_trim_dashes(s.drop_last())
    } else {
        s
    }
}

/// The next shorter name to try as a command: the name without its last
/// dash-separated word.
pub open spec fn spec_shorter_command(s: Seq<char>) -> Seq<char> {
    spec_trim_dashes(spec_trim_word(s))
}

/// Trimming gives a prefix, and a shorter one unless the name is empty.
pub proof fn lemma_shorter_command(s: Seq<char>)
    ensures
        spec_trim_word(s).is_prefix_of(s),
        spec_trim_dashes(s).is_prefix_of(s),
        spec_shorter_command(s).is_prefix_of(s),
        s.len() > 0 ==> spec_shorter_command(s).len() < s.len(),
    decreases s.len(),
{
    if s.len() > 0 {
        let front = s.drop_last();
        lemma_shorter_command(front);
        assert(front =~= s.subrange(0, front.len() as int));
        assert(spec_trim_word(front) =~= s.subrange(0, spec_trim_word(front).len() as int));
        assert(spec_trim_dashes(front) =~= s.subrange(0, spec_trim_dashes(front).len() as int));
        lemma_trim_dashes_prefix(spec_trim_word(s));
        lemma_trim_word_prefix(s);
        let word = spec_trim_word(s);
        let both = spec_shorter_command(s);
        assert(both =~= s.subrange(0, both.len() as int)) by {
            assert(both =~= word.subrange(0, both.len() as int));
            assert(word =~= s.subrange(0, word.len() as int));
        }
        if s.last() == '-' {
            assert(word == s);
            assert(both == spec_trim_dashes(front));
        }
    } else {
        assert(s =~= s.subrange(0, 0));
    }
}

proof fn lemma_trim_word_prefix(s: Seq<char>)
    ensures
        spec_trim_word(s).len() <= s.len(),
        spec_trim_word(s) =~= s.subrange(0, spec_trim_word(s).len() as int),
        s.len() > 0 && s.last() != '-' ==> spec_trim_word(s).len() < s.len(),
    decreases s.len(),
{
    if s.len() > 0 && s.last() != '-' {
        lemma_trim_word_prefix(s.drop_last());
    }
}

proof fn lemma_trim_dashes_prefix(s: Seq<char>)
    ensures
        spec_trim_dashes(s).len() <= s.len(),
        spec_trim_dashes(s) =~= s.subrange(0, spec_trim_dashes(s).len() as int),
        s.len() > 0 && s.last() == '-' ==> spec_trim_dashes(s).len() < s.len(),
    decreases s.len(),
{
    if s.len() > 0 && s.last() == '-' {
        lemma_trim_dashes_prefix(s.drop_last());
    }
}

/// The names to try as the file of a job group's command, longest first:
/// the group's name, then the name shortened word by word, down to the
/// last that is not empty.  `fuel` bounds their number.
pub open spec fn spec_command_candidates(group: Seq<char>, fuel: nat) -> Seq<Seq<char>>
    decreases fuel,
{
    if fuel == 0 || group.len() == 0 {
        Seq::empty()
    } else {
        seq![group] + spec_command_candidates(spec_shorter_command(group), (fuel - 1) as nat)
    }
}

fn shorter_command(v: &Vec<char>, len: usize) -> (cut: usize)
    requires
        len <= v@.len(),
    ensures
        cut <= len,
        v@.take(cut as int) == spec_shorter_command(v@.take(len as int)),
{
    let mut cut: usize = len;
    while cut > 0 && v[cut - 1] != '-'
        invariant
            cut <= len <= v@.len(),
            spec_trim_word(v@.take(cut as int)) == spec_trim_word(v@.take(len as int)),
        decreases cut,
    {
        assert(v@.take(cut as int).drop_last() =~= v@.take(cut - 1));
        cut -= 1;
    }
    assert(spec_trim_word(v@.take(cut as int)) == v@.take(cut as int));
    let ghost word = v@.take(cut as int);
    while cut > 0 && v[cut - 1] == '-'
        invariant
            cut <= len <= v@.len(),
            spec_trim_dashes(v@.take(cut as int)) == spec_trim_dashes(word),
        decreases cut,
    {
        assert(v@.take(cut as int).drop_last() =~= v@.take(cut - 1));
        cut -= 1;
    }
    assert(spec_trim_dashes(v@.take(cut as int)) == v@.take(cut as int));
    cut
}

/// The names to try as the file of a job group's command, longest first.
pub fn command_candidates(job_group: &str) -> (names: Vec<String>)
    ensures
        names.deep_view() == spec_command_candidates(job_group@, job_group@.len()),
{
    let v = chars_of(job_group);
    let mut names: Vec<String> = Vec::new();
    let mut len: usize = v.len();
    assert(v@.take(len as int) =~= job_group@);
    assert(names.deep_view() =~= Seq::<Seq<char>>::empty());
    while len > 0
        invariant
            len <= v@.len(),
            v@ == job_group@,
            names.deep_view() + spec_command_candidates(v@.take(len as int), len as nat)
                == spec_command_candidates(job_group@, job_group@.len()),
        decreases len,
    {
        let ghost before = names.deep_view();
        let ghost current = v@.take(len as int);
        let mut name: Vec<char> = Vec::new();
        let mut i: usize = 0;
        while i < len
            invariant
                i <= len <= v@.len(),
                name@ == v@.take(i as int),
            decreases len - i,
        {
            name.push(v[i]);
            assert(name@ =~= v@.take(i + 1));
            i += 1;
        }
        names.push(string_of(&name));
        assert(names.deep_view() =~= before.push(current));
        let cut = shorter_command(&v, len);
        proof {
            lemma_shorter_command(current);
            lemma_candidates_fuel(v@.take(cut as int), cut as nat, (len - 1) as nat);
            assert(before.push(current) + spec_command_candidates(
                v@.take(cut as int),
                (len - 1) as nat,
            ) =~= before + spec_command_candidates(current, len as nat));
        }
        len = cut;
    }
    proof {
        assert(spec_command_candidates(v@.take(0), 0) =~= Seq::<Seq<char>>::empty());
        assert(names.deep_view() + Seq::<Seq<char>>::empty() =~= names.deep_view());
    }
    names
}

/// Fuel beyond the length of the name changes nothing.
pub proof fn lemma_candidates_fuel(group: Seq<char>, low: nat, high: nat)
    requires
        group.len() <= low <= high,
    ensures
        spec_command_candidates(group, low) == spec_command_candidates(group, high),
    decreases group.len(),
{
    if group.len() > 0 {
        lemma_shorter_command(group);
        lemma_candidates_fuel(spec_shorter_command(group), (low - 1) as nat, (high - 1) as nat);
    }
}

/// The position of the first name that is a file, if any is: `is_file[i]`
/// says whether the i-th candidate is one.
pub open spec fn spec_first_file(is_file: Seq<bool>, upto: int) -> Option<int>
    decreases upto,
{
    if upto <= 0 {
        None
    } else {
        match spec_first_file(is_file, upto - 1) {
            Some(i) => Some(i),
            None => if is_file[upto - 1] {
                Some(upto - 1)
            } else {
                None
            },
        }
    }
}

/// The file that holds a job group's command: the longest candidate that
/// is a file, or the group's name itself where none is.
pub open spec fn spec_best_command(
    job_group: Seq<char>,
    candidates: Seq<Seq<char>>,
    is_file: Seq<bool>,
) -> Seq<char> {
    let n = if candidates.len() <= is_file.len() {
        candidates.len() as int
    } else {
        is_file.len() as int
    };
    match spec_first_file(is_file, n) {
        Some(i) => candidates[i],
        None => job_group,
    }
}

/// Picks the file that holds a job group's command, from the candidates
/// and the answer, for each, whether it is a file under the commands'
/// root.
pub fn find_best_command(job_group: &str, candidates: &Vec<String>, is_file: &Vec<bool>) -> (best:
    String)
    ensures
        best@ == spec_best_command(job_group@, candidates.deep_view(), is_file@),
{
    let n = if candidates.len() <= is_file.len() {
        candidates.len()
    } else {
        is_file.len()
    };
    let mut i: usize = 0;
    while i < n
        invariant
            i <= n,
            n <= candidates@.len(),
            n <= is_file@.len(),
            n == candidates@.len() || n == is_file@.len(),
            spec_first_file(is_file@, i as int).is_none(),
        decreases n - i,
    {
        if is_file[i] {
            proof {
                assert(spec_first_file(is_file@, i as int + 1) == Some(i as int));
                lemma_first_file_stays(is_file@, i as int + 1, n as int);
                assert(candidates.deep_view().len() == candidates@.len());
            }
            assert(candidates.deep_view()[i as int] == candidates@[i as int]@);
            return candidates[i].clone();
        }
        i += 1;
    }
    assert(candidates.deep_view().len() == candidates@.len());
    job_group.to_owned()
}

proof fn lemma_first_file_stays(is_file: Seq<bool>, low: int, high: int)
    requires
        0 <= low <= high,
        spec_first_file(is_file, low).is_some(),
    ensures
        spec_first_file(is_file, high) == spec_first_file(is_file, low),
    decreases high - low,
{
    if low < high {
        lemma_first_file_stays(is_file, low, high - 1);
    }
}

/// The command line to hand to the shell: the command as given where its
/// group's name is itself the command's file; otherwise the command with
/// the character after the file's name turned into a space, so that the
/// rest of the group's name becomes the first argument.
pub open spec fn spec_final_command(
    cmd: Seq<char>,
    cmd_file: Seq<char>,
    job_group: Seq<char>,
) -> Seq<char> {
    if cmd_file == job_group || cmd_file.len() >= cmd.len() {
        cmd
    } else {
        cmd.take(cmd_file.len() as int) + seq![' '] + cmd.skip(cmd_file.len() as int + 1)
    }
}

pub fn final_command(cmd: &str, cmd_file: &str, job_group: &str) -> (line: String)
    ensures
        line@ == spec_final_command(cmd@, cmd_file@, job_group@),
{
    let v = chars_of(cmd);
    let file = chars_of(cmd_file);
    if crate::text::same_text(cmd_file, job_group) || file.len() >= v.len() {
        return cmd.to_owned();
    }
    let n = file.len();
    let mut out: Vec<char> = Vec::new();
    let mut i: usize = 0;
    while i < v.len()
        invariant
            i <= v@.len(),
            n < v@.len(),
            out@.len() == i,
            forall|j: int|
                0 <= j < i ==> out@[j] == if j == n {
                    ' '
                } else {
                    v@[j]
                },
        decreases v.len() - i,
    {
        if i == n {
            out.push(' ');
        } else {
            out.push(v[i]);
        }
        i += 1;
    }
    assert(out@ =~= spec_final_command(cmd@, cmd_file@, job_group@));
    string_of(&out)
}

/// Variables of a process environment, as names with their values.
pub open spec fn env_view(env: Seq<(String, String)>) -> Seq<(Seq<char>, Seq<char>)> {
    Seq::new(env.len(), |i: int| (env[i].0@, env[i].1@))
}

fn push_var(env: &mut Vec<(String, String)>, name: &str, value: &str)
    ensures
        env_view(final(env)@) == env_view(old(env)@).push((name@, value@)),
{
    env.push((name.to_owned(), value.to_owned()));
    assert(env_view(env@) =~= env_view(old(env)@).push((name@, value@)));
}

/// The job inside whose environment another job is started.
#[derive(Debug, Clone)]
pub struct ParentJob {
    pub job_id: String,
    pub job_name: String,
    pub job_url: String,
}

/// The parent that an environment names: present only where the job's id,
/// name and address are all three set.
pub fn parent_job_from_env(
    job_id: Option<String>,
    job_name: Option<String>,
    job_url: Option<String>,
) -> (parent: Option<ParentJob>)
    ensures
        parent.is_some() == (job_id.is_some() && job_name.is_some() && job_url.is_some()),
        parent matches Some(p) ==> Some(p.job_id) == job_id && Some(p.job_name) == job_name
            && Some(p.job_url) == job_url,
{
    match (job_id, job_name, job_url) {
        (Some(job_id), Some(job_name), Some(job_url)) => Some(
            ParentJob { job_id, job_name, job_url },
        ),
        _ => None,
    }
}

/// The variables that tell a job's command about its parent job.
pub open spec fn spec_parent_environment(parent: Option<ParentJob>) -> Seq<
    (Seq<char>, Seq<char>),
> {
    match parent {
        Some(p) => seq![
            ("S5CI_PARENT_JOB_ID"@, p.job_id@),
            ("S5CI_PARENT_JOB_NAME"@, p.job_name@),
            ("S5CI_PARENT_JOB_URL"@, p.job_url@),
        ],
        None => Seq::empty(),
    }
}

/// The variable that carries the id of the event that led to a job.
pub open spec fn spec_event_environment(trigger_event_id: Option<String>) -> Seq<
    (Seq<char>, Seq<char>),
> {
    match trigger_event_id {
        Some(id) => seq![("S5CI_TRIGGER_EVENT_ID"@, id@)],
        None => Seq::empty(),
    }
}

/// The variables that a job's command is started with, beyond those that
/// the daemon itself was started with, in the order in which they are
/// set: `path_var` is the search path of the daemon's own environment.
pub open spec fn spec_job_environment(
    config: &s5ciConfig,
    rtdt: &s5ciRuntimeData,
    job_id: Seq<char>,
    path_var: Seq<char>,
    parent: Option<ParentJob>,
) -> Seq<(Seq<char>, Seq<char>)> {
    seq![
        ("RUST_BACKTRACE"@, "1"@),
        ("PATH"@, config.command_rootdir@ + seq![':'] + path_var),
        ("S5CI_EXE"@, rtdt.real_s5ci_exe@),
        ("S5CI_JOB_ID"@, job_id),
        ("S5CI_WORKSPACE"@, spec_workspace_path(config.jobs.rootdir@, job_id)),
        ("S5CI_CONSOLE_LOG"@, spec_console_log_path(config.jobs.rootdir@, job_id, Seq::empty())),
        ("S5CI_JOB_NAME"@, spec_job_name(job_id)),
        ("S5CI_JOB_URL"@, spec_job_url(config.jobs.root_url@, job_id)),
        ("S5CI_SANDBOX_LEVEL"@, decimal(rtdt.sandbox_level as nat)),
        ("S5CI_CONFIG"@, rtdt.config_path@),
    ] + spec_parent_environment(parent) + spec_event_environment(rtdt.trigger_event_id)
}

/// The variables that a job's command is started with.
pub fn job_environment(
    config: &s5ciConfig,
    rtdt: &s5ciRuntimeData,
    job_id: &str,
    path_var: &str,
    parent: &Option<ParentJob>,
) -> (env: Vec<(String, String)>)
    ensures
        env_view(env@) == spec_job_environment(config, rtdt, job_id@, path_var@, *parent),
{
    proof {
        reveal_strlit(":");
    }
    assert(":"@ =~= seq![':']);
    let mut env: Vec<(String, String)> = Vec::new();
    assert(env_view(env@) =~= Seq::<(Seq<char>, Seq<char>)>::empty());
    push_var(&mut env, "RUST_BACKTRACE", "1");
    let mut search = config.command_rootdir.clone();
    append(&mut search, ":");
    append(&mut search, path_var);
    push_var(&mut env, "PATH", search.as_str());
    push_var(&mut env, "S5CI_EXE", rtdt.real_s5ci_exe.as_str());
    push_var(&mut env, "S5CI_JOB_ID", job_id);
    push_var(&mut env, "S5CI_WORKSPACE", get_workspace_path(config, job_id).as_str());
    push_var(&mut env, "S5CI_CONSOLE_LOG", get_job_console_log_path(config, job_id).as_str());
    push_var(&mut env, "S5CI_JOB_NAME", get_job_name(job_id).as_str());
    push_var(&mut env, "S5CI_JOB_URL", get_job_url(config, job_id).as_str());
    push_var(&mut env, "S5CI_SANDBOX_LEVEL", u64_to_string(rtdt.sandbox_level as u64).as_str());
    push_var(&mut env, "S5CI_CONFIG", rtdt.config_path.as_str());
    let ghost base = env_view(env@);
    assert(base =~= spec_job_environment(config, rtdt, job_id@, path_var@, None).subrange(0, 10));
    match parent {
        Some(p) => {
            push_var(&mut env, "S5CI_PARENT_JOB_ID", p.job_id.as_str());
            push_var(&mut env, "S5CI_PARENT_JOB_NAME", p.job_name.as_str());
            push_var(&mut env, "S5CI_PARENT_JOB_URL", p.job_url.as_str());
        },
        None => {},
    }
    assert(env_view(env@) =~= base + spec_parent_environment(*parent));
    let ghost with_parent = env_view(env@);
    match &rtdt.trigger_event_id {
        Some(id) => {
            push_var(&mut env, "S5CI_TRIGGER_EVENT_ID", id.as_str());
        },
        None => {},
    }
    assert(env_view(env@) =~= with_parent + spec_event_environment(rtdt.trigger_event_id));
    assert(env_view(env@) =~= spec_job_environment(config, rtdt, job_id@, path_var@, *parent));
    env
}

/// How the command of a job is started.
#[derive(Debug, Clone)]
pub struct ChildCommand {
    pub job_id: String,
    /// The file that takes what the command writes.
    pub log_fname: String,
    /// The line to hand to the shell.
    pub shell_command: String,
    /// The variables to add to the environment.
    pub env: Vec<(String, String)>,
    /// The variables to take out of the environment: the number that this
    /// job was handed is not for the jobs that its command starts.
    pub unset: Vec<String>,
}

/// Prepares the start of the command of the job number `job_nr` of the
/// group `job_group`: `cmd` is the command as asked for, `cmd_file` the
/// file found to hold it, `path_var` the search path and `parent` the
/// parent job of the daemon's own environment, and `suffix` tells this
/// job's log apart.
pub fn prepare_child_command(
    config: &s5ciConfig,
    rtdt: &s5ciRuntimeData,
    cmd: &str,
    job_group: &str,
    job_nr: i32,
    cmd_file: &str,
    path_var: &str,
    parent: &Option<ParentJob>,
    suffix: &str,
) -> (child: ChildCommand)
    ensures
        child.job_id@ == spec_job_id(job_group@, job_nr),
        child.log_fname@ == spec_console_log_path(
            config.jobs.rootdir@,
            spec_job_id(job_group@, job_nr),
            suffix@,
        ),
        child.shell_command@ == spec_final_command(cmd@, cmd_file@, job_group@),
        env_view(child.env@) == spec_job_environment(
            config,
            rtdt,
            spec_job_id(job_group@, job_nr),
            path_var@,
            *parent,
        ),
        child.unset.deep_view() == seq![spec_instance_variable()],
{
    let job_id = job_id_of(job_group, job_nr);
    let log_fname = console_log_path(config, job_id.as_str(), suffix);
    let shell_command = final_command(cmd, cmd_file, job_group);
    let env = job_environment(config, rtdt, job_id.as_str(), path_var, parent);
    let mut unset: Vec<String> = Vec::new();
    unset.push(instance_variable());
    assert(unset.deep_view() =~= seq![spec_instance_variable()]);
    ChildCommand { job_id, log_fname, shell_command, env, unset }
}

/// How to start a job in the background: the daemon's own program is
/// started again with `args` and with `env` added to its environment, to
/// run the command in the foreground of a session of its own.
#[derive(Debug, Clone)]
pub struct SpawnPlan {
    /// The id of the job that is started; `None` where none is.
    pub job_id: Option<String>,
    pub args: Vec<String>,
    pub env: Vec<(String, String)>,
    /// Whether to start the process at all; if not, the plan is only to
    /// be logged.
    pub spawn: bool,
}

/// A number of a change or a patchset in decimal; 0 where there is none.
pub open spec fn spec_id_text(id: Option<u32>) -> Seq<char> {
    match id {
        Some(n) => decimal(n as nat),
        None => decimal(0),
    }
}

/// The arguments with which the daemon's program runs one job.
pub open spec fn spec_spawn_args(cmd: Seq<char>) -> Seq<Seq<char>> {
    seq!["run-job"@, "-c"@, cmd, "-k"@]
}

/// The name of the variable that hands the number of a job to the process
/// that runs it.
pub open spec fn spec_instance_variable() -> Seq<char> {
    "S5CI_JOB_INSTANCE_ID"@
}

pub fn instance_variable() -> (name: String)
    ensures
        name@ == spec_instance_variable(),
{
    "S5CI_JOB_INSTANCE_ID".to_owned()
}

/// The group whose counter a job for `cmd` takes its number from: the
/// command's job group, and none at a sandbox level at which nothing is
/// started.
pub open spec fn spec_spawn_job_group(sandbox_level: u32, cmd: Seq<char>) -> Option<Seq<char>> {
    if sandbox_level < SANDBOX_NO_SPAWN {
        spec_job_group_name(cmd)
    } else {
        None
    }
}

/// The number that a job is started with, if it is started: the number
/// allocated for it, which is not negative.
pub open spec fn spec_spawn_instance(
    sandbox_level: u32,
    cmd: Seq<char>,
    allocated: Option<i32>,
) -> Option<i32> {
    match (spec_spawn_job_group(sandbox_level, cmd), allocated) {
        (Some(group), Some(n)) => if n >= 0 {
            Some(n)
        } else {
            None
        },
        _ => None,
    }
}

/// The id of the job that a spawn starts: the command's job group and the
/// number allocated in it.  No job is started at a sandbox level at which
/// nothing is, for a command that names no group, or without a number.
pub open spec fn spec_spawn_job_id(
    sandbox_level: u32,
    cmd: Seq<char>,
    allocated: Option<i32>,
) -> Option<Seq<char>> {
    match spec_spawn_instance(sandbox_level, cmd, allocated) {
        Some(n) => Some(spec_job_id(spec_job_group_name(cmd).unwrap(), n)),
        None => None,
    }
}

/// The variables that hand a job's context to the process that runs it:
/// the configuration, the change and patchset, the comment, the event that
/// led to the job, and the number of the job where one is started.
pub open spec fn spec_spawn_environment(
    rtdt: &s5ciRuntimeData,
    changeset_id: Option<u32>,
    patchset_id: Option<u32>,
    instance: Option<i32>,
) -> Seq<(Seq<char>, Seq<char>)> {
    seq![
        ("S5CI_CONFIG"@, rtdt.config_path@),
        ("S5CI_GERRIT_CHANGESET_ID"@, spec_id_text(changeset_id)),
        ("S5CI_GERRIT_PATCHSET_ID"@, spec_id_text(patchset_id)),
        ("S5CI_GERRIT_COMMENT_VALUE"@, rtdt.comment_value@),
    ] + spec_event_environment(rtdt.trigger_event_id) + match instance {
        Some(n) => seq![(spec_instance_variable(), decimal(n as nat))],
        None => Seq::empty(),
    }
}

fn id_text(id: Option<u32>) -> (text: String)
    ensures
        text@ == spec_id_text(id),
{
    match id {
        Some(n) => u64_to_string(n as u64),
        None => u64_to_string(0),
    }
}

/// The job group whose counter is to give the number of the job that a
/// spawn of `cmd` starts; `None` where the spawn starts no job, so that
/// nothing is to be allocated and no workspace to be made.
pub fn spawn_job_group(rtdt: &s5ciRuntimeData, cmd: &str) -> (group: Option<String>)
    ensures
        group.deep_view() == spec_spawn_job_group(rtdt.sandbox_level, cmd@),
{
    if rtdt.sandbox_level < SANDBOX_NO_SPAWN {
        job_group_name_from_cmd(cmd)
    } else {
        None
    }
}

/// Plans the start of a job for `cmd` on behalf of a change and patchset.
/// `allocated` is the number taken for the job from the counter of the
/// group that `spawn_job_group` names, if it names one.  The plan names the
/// job that is started, `group/number`, and hands the number on to the
/// process that runs it.  At sandbox level `SANDBOX_NO_SPAWN` and above no
/// job is started: the plan is only to be logged.
pub fn spawn_command(
    rtdt: &s5ciRuntimeData,
    changeset_id: Option<u32>,
    patchset_id: Option<u32>,
    cmd: &str,
    allocated: Option<i32>,
) -> (plan: SpawnPlan)
    ensures
        plan.job_id.deep_view() == spec_spawn_job_id(rtdt.sandbox_level, cmd@, allocated),
        plan.spawn == plan.job_id.is_some(),
        rtdt.sandbox_level >= SANDBOX_NO_SPAWN ==> !plan.spawn,
        plan.args.deep_view() == spec_spawn_args(cmd@),
        env_view(plan.env@) == spec_spawn_environment(
            rtdt,
            changeset_id,
            patchset_id,
            spec_spawn_instance(rtdt.sandbox_level, cmd@, allocated),
        ),
{
    let mut args: Vec<String> = Vec::new();
    args.push("run-job".to_owned());
    args.push("-c".to_owned());
    args.push(cmd.to_owned());
    args.push("-k".to_owned());
    assert(args.deep_view() =~= spec_spawn_args(cmd@));
    let mut env: Vec<(String, String)> = Vec::new();
    assert(env_view(env@) =~= Seq::<(Seq<char>, Seq<char>)>::empty());
    push_var(&mut env, "S5CI_CONFIG", rtdt.config_path.as_str());
    push_var(&mut env, "S5CI_GERRIT_CHANGESET_ID", id_text(changeset_id).as_str());
    push_var(&mut env, "S5CI_GERRIT_PATCHSET_ID", id_text(patchset_id).as_str());
    push_var(&mut env, "S5CI_GERRIT_COMMENT_VALUE", rtdt.comment_value.as_str());
    let ghost base = env_view(env@);
    match &rtdt.trigger_event_id {
        Some(id) => {
            push_var(&mut env, "S5CI_TRIGGER_EVENT_ID", id.as_str());
        },
        None => {},
    }
    assert(env_view(env@) =~= base + spec_event_environment(rtdt.trigger_event_id));
    let ghost with_event = env_view(env@);
    let job_id = match (spawn_job_group(rtdt, cmd), allocated) {
        (Some(group), Some(n)) => {
            if n >= 0 {
                push_var(&mut env, "S5CI_JOB_INSTANCE_ID", u64_to_string(n as u64).as_str());
                Some(job_id_of(group.as_str(), n))
            } else {
                None
            }
        },
        _ => None,
    };
    assert(env_view(env@) =~= with_event + match spec_spawn_instance(
        rtdt.sandbox_level,
        cmd@,
        allocated,
    ) {
        Some(n) => seq![(spec_instance_variable(), decimal(n as nat))],
        None => Seq::empty(),
    });
    let spawn = job_id.is_some();
    SpawnPlan { job_id, args, env, spawn }
}

/// The number that a process was handed for the job it is to run, as it
/// reads it from its environment: the value of the variable
/// `spec_instance_variable`, if it is set to a number that a job can have.
pub open spec fn spec_handed_instance(value: Option<Seq<char>>) -> Option<i32> {
    match value {
        Some(text) => match spec_parse_u32(text) {
            Some(n) => if n <= i32::MAX {
                Some(n as i32)
            } else {
                None
            },
            None => None,
        },
        None => None,
    }
}

pub fn handed_instance(value: Option<&String>) -> (instance: Option<i32>)
    ensures
        instance == spec_handed_instance(
            match value {
                Some(text) => Some(text@),
                None => None,
            },
        ),
{
    match value {
        Some(text) => match parse_u32(text.as_str()) {
            Some(n) => if n <= 0x7fff_ffff {
                Some(n as i32)
            } else {
                None
            },
            None => None,
        },
        None => None,
    }
}

/// The process that a spawn starts is handed the number of the job that
/// the spawn planned: it reads back from the variable what the plan wrote
/// into it.
pub proof fn lemma_spawned_instance_is_handed_on(
    rtdt: &s5ciRuntimeData,
    changeset_id: Option<u32>,
    patchset_id: Option<u32>,
    cmd: Seq<char>,
    allocated: Option<i32>,
)
    requires
        spec_spawn_instance(rtdt.sandbox_level, cmd, allocated).is_some(),
    ensures
        ({
            let instance = spec_spawn_instance(rtdt.sandbox_level, cmd, allocated);
            let env = spec_spawn_environment(rtdt, changeset_id, patchset_id, instance);
            &&& instance == allocated
            &&& env.last().0 == spec_instance_variable()
            &&& spec_handed_instance(Some(env.last().1)) == instance
        }),
{
    let n = allocated.unwrap();
    lemma_decimal_parses(n as nat);
}

/// The exit status that a finished job reports: the command's own exit
/// code, or `UNKNOWN_EXIT_STATUS` where it ended without one.
pub open spec fn spec_effective_exit_status(status: Option<i32>) -> i32 {
    match status {
        Some(code) => code,
        None => UNKNOWN_EXIT_STATUS,
    }
}

pub fn effective_exit_status(status: Option<i32>) -> (code: i32)
    ensures
        code == spec_effective_exit_status(status),
{
    match status {
        Some(code) => code,
        None => UNKNOWN_EXIT_STATUS,
    }
}

/// Where a job stands.
#[derive(Debug, Clone, Copy, PartialEq, Eq, Structural)]
pub enum JobState {
    /// Its record exists; its command has not been started.
    Created,
    /// Its command runs.
    Running,
    /// Its command ended with exit code 0.
    Succeeded,
    /// Its command ended otherwise.
    Failed,
}

/// What holds of every job record: the finish time and the return code are
/// set together, and success is recorded exactly for return code 0.
pub open spec fn job_wf(j: job) -> bool {
    &&& j.finished_at.is_some() == j.return_code.is_some()
    &&& j.return_success == (j.return_code == Some(0i32))
}

pub open spec fn spec_job_state(j: job) -> JobState {
    if j.finished_at.is_some() {
        if j.return_success {
            JobState::Succeeded
        } else {
            JobState::Failed
        }
    } else if j.command_pid.is_some() {
        JobState::Running
    } else {
        JobState::Created
    }
}

pub fn job_state(j: &job) -> (state: JobState)
    ensures
        state == spec_job_state(*j),
{
    if j.finished_at.is_some() {
        if j.return_success {
            JobState::Succeeded
        } else {
            JobState::Failed
        }
    } else if j.command_pid.is_some() {
        JobState::Running
    } else {
        JobState::Created
    }
}

/// What is known of a job when its record is made.
#[derive(Debug, Clone)]
pub struct JobStart {
    pub record_uuid: String,
    pub job_group_name: String,
    pub instance_id: i32,
    /// The process that runs the job.
    pub job_pid: i32,
    pub parent_job_id: Option<String>,
    pub changeset_id: i32,
    pub patchset_id: i32,
    pub command: String,
    pub trigger_event_id: Option<String>,
    pub started_at: i64,
}

/// The record of a job that is about to start its command.
pub fn new_job(start: JobStart) -> (j: job)
    ensures
        j.record_uuid == start.record_uuid,
        j.job_group_name == start.job_group_name,
        j.instance_id == start.instance_id,
        j.job_id@ == spec_job_id(start.job_group_name@, start.instance_id),
        j.job_pid == start.job_pid,
        j.parent_job_id == start.parent_job_id,
        j.changeset_id == start.changeset_id,
        j.patchset_id == start.patchset_id,
        j.command == start.command,
        j.command_pid.is_none(),
        j.remote_host.is_none(),
        j.status_message@.len() == 0,
        j.status_updated_at.is_none(),
        j.updated_at.is_none(),
        j.started_at == Some(start.started_at),
        j.finished_at.is_none(),
        !j.return_success,
        j.return_code.is_none(),
        j.trigger_event_id == start.trigger_event_id,
        job_wf(j),
        spec_job_state(j) == JobState::Created,
{
    let job_id = job_id_of(start.job_group_name.as_str(), start.instance_id);
    job {
        record_uuid: start.record_uuid,
        job_group_name: start.job_group_name,
        instance_id: start.instance_id,
        job_id,
        job_pid: start.job_pid,
        parent_job_id: start.parent_job_id,
        changeset_id: start.changeset_id,
        patchset_id: start.patchset_id,
        command: start.command,
        command_pid: None,
        remote_host: None,
        status_message: String::new(),
        status_updated_at: None,
        updated_at: None,
        started_at: Some(start.started_at),
        finished_at: None,
        return_success: false,
        return_code: None,
        trigger_event_id: start.trigger_event_id,
    }
}

/// Records the process of a job's command, right after it was started.
pub fn set_command_pid(j: &mut job, pid: i32)
    ensures
        *final(j) == (job { command_pid: Some(pid), ..*old(j) }),
        job_wf(*old(j)) ==> job_wf(*final(j)),
        old(j).finished_at.is_none() ==> spec_job_state(*final(j)) == JobState::Running,
{
    j.command_pid = Some(pid);
}

/// Closes a job's record at `now` with the exit code of its command, if
/// it had one.  The record keeps the code, or `UNKNOWN_EXIT_STATUS` in its
/// place, and success exactly for code 0.  A record that is closed already
/// is left as it is; the result says whether this call closed it.
pub fn db_set_job_finished(j: &mut job, now: i64, status_code: Option<i32>) -> (closed: bool)
    ensures
        closed == old(j).finished_at.is_none(),
        closed ==> *final(j) == (job {
            finished_at: Some(now),
            return_success: status_code == Some(0i32),
            return_code: Some(spec_effective_exit_status(status_code)),
            ..*old(j)
        }),
        !closed ==> *final(j) == *old(j),
        job_wf(*old(j)) ==> job_wf(*final(j)),
        closed ==> job_wf(*final(j)),
        closed ==> spec_job_state(*final(j)) == if status_code == Some(0i32) {
            JobState::Succeeded
        } else {
            JobState::Failed
        },
{
    if j.finished_at.is_some() {
        return false;
    }
    let code = effective_exit_status(status_code);
    j.finished_at = Some(now);
    j.return_success = match status_code {
        Some(c) => c == 0,
        None => false,
    };
    j.return_code = Some(code);
    true
}

/// Writes a remark into a job's record.  It changes nothing else, so the
/// job stays where it stands.
pub fn set_job_status(j: &mut job, message: &str, now: i64)
    ensures
        final(j).status_message@ == message@,
        final(j).status_updated_at == Some(now),
        *final(j) == (job {
            status_message: final(j).status_message,
            status_updated_at: Some(now),
            ..*old(j)
        }),
        job_wf(*old(j)) ==> job_wf(*final(j)),
        spec_job_state(*final(j)) == spec_job_state(*old(j)),
{
    j.status_message = message.to_owned();
    j.status_updated_at = Some(now);
}

/// Every way in which a record changes keeps `job_wf`: at any time a job
/// has a finish time exactly if it has a return code.
pub proof fn lemma_job_record_invariant(j: job, now: i64, status_code: Option<i32>, pid: i32)
    requires
        job_wf(j),
    ensures
        job_wf(job { command_pid: Some(pid), ..j }),
        j.finished_at.is_none() ==> job_wf(
            job {
                finished_at: Some(now),
                return_success: status_code == Some(0i32),
                return_code: Some(spec_effective_exit_status(status_code)),
                ..j
            },
        ),
        j.finished_at.is_some() == j.return_code.is_some(),
{
}

/// How a job is spoken of where it cannot be found.
pub open spec fn spec_job_description(job_id: Seq<char>) -> Seq<char> {
    "models::job with job_id == "@ + job_id
}

/// What a search for the job of an id gives: the job, if exactly one record
/// carries the id; else why not.
pub open spec fn spec_db_get_job(rows: Seq<job>, job_id: Seq<char>) -> Result<job, Seq<char>> {
    if rows.len() == 1 {
        Ok(rows[0])
    } else if rows.len() == 0 {
        Err(spec_job_description(job_id) + " not found even deleted"@)
    } else {
        Err("more than one "@ + spec_job_description(job_id) + " even deleted"@)
    }
}

/// Picks the job of an id from the records found under that id.
pub fn db_get_job(rows: Vec<job>, job_id: &str) -> (found: Result<job, String>)
    ensures
        match spec_db_get_job(rows@, job_id@) {
            Ok(j) => found == Ok::<job, String>(j),
            Err(why) => found matches Err(e) && e@ == why,
        },
{
    let mut rows = rows;
    if rows.len() == 1 {
        Ok(rows.pop().unwrap())
    } else if rows.len() == 0 {
        let mut message = "models::job with job_id == ".to_owned();
        append(&mut message, job_id);
        append(&mut message, " not found even deleted");
        Err(message)
    } else {
        let mut message = "more than one ".to_owned();
        append(&mut message, "models::job with job_id == ");
        append(&mut message, job_id);
        append(&mut message, " even deleted");
        assert(message@ =~= "more than one "@ + spec_job_description(job_id@)
            + " even deleted"@);
        Err(message)
    }
}

/// The remark that a killed job's record gets.
pub open spec fn spec_kill_message(terminator: Seq<char>) -> Seq<char> {
    "Terminated by the "@ + terminator
}

/// Whether and how to kill a job: a job that has not finished and whose
/// command's process is known is killed by a signal to the process group of
/// that process, and its record gets a remark that names who asked.  Any
/// other job is left alone.
pub fn kill_decision(j: &job, terminator: &str) -> (kill: Option<(i32, String)>)
    ensures
        kill.is_some() == (j.finished_at.is_none() && j.command_pid.is_some()),
        kill matches Some(k) ==> Some(k.0) == j.command_pid && k.1@ == spec_kill_message(
            terminator@,
        ),
{
    if j.finished_at.is_some() {
        return None;
    }
    match j.command_pid {
        Some(pid) => {
            let mut message = "Terminated by the ".to_owned();
            append(&mut message, terminator);
            Some((pid, message))
        },
        None => None,
    }
}

/// What to do about a request to run a job.
#[derive(Debug, Clone, Copy, PartialEq, Eq, Structural)]
pub enum RunJobDecision {
    /// Run nothing and report success: an earlier job of the same group,
    /// change and patchset has succeeded.
    Omit,
    /// Run the command, after killing the earlier job if so said.
    Run { kill_previous: bool },
}

pub open spec fn spec_run_job_decision(
    omit_if_ok: bool,
    kill_previous: bool,
    previous: Option<job>,
) -> RunJobDecision {
    match previous {
        Some(p) => if omit_if_ok && p.return_success {
            RunJobDecision::Omit
        } else {
            RunJobDecision::Run { kill_previous: kill_previous && p.finished_at.is_none() }
        },
        None => RunJobDecision::Run { kill_previous: false },
    }
}

/// Decides what to do about a request to run a job, given the latest
/// earlier job of the same group, change and patchset, if there is one.
pub fn run_job_decision(args: &s5ciRunJobArgs, previous: Option<&job>) -> (d: RunJobDecision)
    ensures
        d == spec_run_job_decision(
            args.omit_if_ok,
            args.kill_previous,
            match previous {
                Some(p) => Some(*p),
                None => None,
            },
        ),
{
    match previous {
        Some(p) => {
            if args.omit_if_ok && p.return_success {
                RunJobDecision::Omit
            } else {
                RunJobDecision::Run { kill_previous: args.kill_previous && p.finished_at.is_none() }
            }
        },
        None => RunJobDecision::Run { kill_previous: false },
    }
}

/// For how long a finished job stays on the list of jobs, in milliseconds.
pub const LISTED_AFTER_FINISH_MS: i64 = 10000;

/// Whether a job is shown in the list of jobs at `now`: every job that has
/// not finished, and every one that finished no longer ago than
/// `LISTED_AFTER_FINISH_MS`.
pub open spec fn spec_job_is_listed(j: job, now: i64) -> bool {
    match j.finished_at {
        Some(finished) => finished >= now - LISTED_AFTER_FINISH_MS,
        None => true,
    }
}

pub fn job_is_listed(j: &job, now: i64) -> (listed: bool)
    ensures
        listed == spec_job_is_listed(*j, now),
{
    match j.finished_at {
        Some(finished) => (finished as i128) >= (now as i128) - (LISTED_AFTER_FINISH_MS as i128),
        None => true,
    }
}

/// Where the run of a job's command stands.
#[derive(Debug, Clone, Copy, PartialEq, Eq, Structural)]
pub enum ExecPhase {
    Idle,
    /// The job's record is being inserted.
    Inserting,
    /// The command is being started, in a session of its own.
    Spawning,
    /// The command's process is being recorded.
    Recording { pid: i32 },
    /// The start is being announced.
    Announcing,
    /// The command is being looked at.
    Polling,
    /// A pause between two looks.
    Sleeping,
    /// The record is being closed.
    Finalizing { code: Option<i32> },
    Finished,
}

/// What happened to what the run asked for.
#[derive(Debug, Clone, Copy, PartialEq, Eq, Structural)]
pub enum ExecEvent {
    Start,
    /// What was asked for has been done.
    Done,
    /// The command was started as this process.
    Spawned { pid: i32 },
    /// The command still runs.
    StillRunning,
    /// The command has ended, with this exit code if it had one.
    Exited { code: Option<i32> },
    /// What was asked for could not be done.
    Failed,
}

/// What the run asks for next.
#[derive(Debug, Clone, Copy, PartialEq, Eq, Structural)]
pub enum ExecAction {
    /// Insert the job's record, made by `new_job`.
    InsertRecord,
    /// Enter the workspace, become a session leader and start the command.
    SpawnCommand,
    /// Store the record with the command's process set.
    RecordPid(i32),
    /// Tell the status pages that the job has started.
    AnnounceStart,
    /// Look, without waiting, whether the command has ended.
    Poll,
    /// Pause for so many milliseconds.
    Sleep(u64),
    /// Close the record with this exit code and tell the status pages.
    Finalize { code: Option<i32> },
    /// Stop and report this exit code.
    Return { code: Option<i32> },
    /// Stop: the run cannot go on.
    Abort,
}

/// The transition of a run: from where it stands and what happened to
/// where it stands next and what it asks for.  A job is created, runs, is
/// looked at until it has ended, and is then closed once.
pub open spec fn spec_exec_step(phase: ExecPhase, event: ExecEvent) -> (ExecPhase, ExecAction) {
    match (phase, event) {
        (ExecPhase::Idle, ExecEvent::Start) => (ExecPhase::Inserting, ExecAction::InsertRecord),
        (ExecPhase::Inserting, ExecEvent::Done) => (ExecPhase::Spawning, ExecAction::SpawnCommand),
        (ExecPhase::Spawning, ExecEvent::Spawned { pid }) => (
            ExecPhase::Recording { pid },
            ExecAction::RecordPid(pid),
        ),
        (ExecPhase::Recording { pid }, ExecEvent::Done) => (
            ExecPhase::Announcing,
            ExecAction::AnnounceStart,
        ),
        (ExecPhase::Announcing, ExecEvent::Done) => (ExecPhase::Polling, ExecAction::Poll),
        (ExecPhase::Polling, ExecEvent::StillRunning) => (
            ExecPhase::Sleeping,
            ExecAction::Sleep(JOB_POLL_MS),
        ),
        (ExecPhase::Sleeping, ExecEvent::Done) => (ExecPhase::Polling, ExecAction::Poll),
        (ExecPhase::Polling, ExecEvent::Exited { code }) => (
            ExecPhase::Finalizing { code },
            ExecAction::Finalize { code },
        ),
        (ExecPhase::Finalizing { code }, ExecEvent::Done) => (
            ExecPhase::Finished,
            ExecAction::Return { code },
        ),
        _ => (ExecPhase::Finished, ExecAction::Abort),
    }
}

/// Feeds the run of a job's command what happened, and says what to do
/// next.
pub fn exec_command(phase: ExecPhase, event: ExecEvent) -> (next: (ExecPhase, ExecAction))
    ensures
        next == spec_exec_step(phase, event),
{
    match phase {
        ExecPhase::Idle => match event {
            ExecEvent::Start => (ExecPhase::Inserting, ExecAction::InsertRecord),
            _ => (ExecPhase::Finished, ExecAction::Abort),
        },
        ExecPhase::Inserting => match event {
            ExecEvent::Done => (ExecPhase::Spawning, ExecAction::SpawnCommand),
            _ => (ExecPhase::Finished, ExecAction::Abort),
        },
        ExecPhase::Spawning => match event {
            ExecEvent::Spawned { pid } => (ExecPhase::Recording { pid }, ExecAction::RecordPid(pid)),
            _ => (ExecPhase::Finished, ExecAction::Abort),
        },
        ExecPhase::Recording { pid } => match event {
            ExecEvent::Done => (ExecPhase::Announcing, ExecAction::AnnounceStart),
            _ => (ExecPhase::Finished, ExecAction::Abort),
        },
        ExecPhase::Announcing => match event {
            ExecEvent::Done => (ExecPhase::Polling, ExecAction::Poll),
            _ => (ExecPhase::Finished, ExecAction::Abort),
        },
        ExecPhase::Polling => match event {
            ExecEvent::StillRunning => (ExecPhase::Sleeping, ExecAction::Sleep(JOB_POLL_MS)),
            ExecEvent::Exited { code } => (
                ExecPhase::Finalizing { code },
                ExecAction::Finalize { code },
            ),
            _ => (ExecPhase::Finished, ExecAction::Abort),
        },
        ExecPhase::Sleeping => match event {
            ExecEvent::Done => (ExecPhase::Polling, ExecAction::Poll),
            _ => (ExecPhase::Finished, ExecAction::Abort),
        },
        ExecPhase::Finalizing { code } => match event {
            ExecEvent::Done => (ExecPhase::Finished, ExecAction::Return { code }),
            _ => (ExecPhase::Finished, ExecAction::Abort),
        },
        ExecPhase::Finished => (ExecPhase::Finished, ExecAction::Abort),
    }
}

/// How far a run has come.
pub open spec fn exec_rank(phase: ExecPhase) -> nat {
    match phase {
        ExecPhase::Idle => 0,
        ExecPhase::Inserting => 1,
        ExecPhase::Spawning => 2,
        ExecPhase::Recording { pid } => 3,
        ExecPhase::Announcing => 4,
        ExecPhase::Polling => 5,
        ExecPhase::Sleeping => 5,
        ExecPhase::Finalizing { code } => 6,
        ExecPhase::Finished => 7,
    }
}

/// A run never goes back.  Its record is inserted before its command is
/// started, it is closed only with the exit code that a look at the
/// command gave, only once, and the exit code reported is the one the
/// record was closed with.
pub proof fn lemma_exec_order(phase: ExecPhase, event: ExecEvent)
    ensures
        ({
            let (next, action) = spec_exec_step(phase, event);
            &&& exec_rank(phase) <= exec_rank(next)
            &&& action is SpawnCommand ==> phase is Inserting
            &&& action is Finalize ==> phase is Polling && event
                == (ExecEvent::Exited { code: action->Finalize_code }) && exec_rank(next)
                > exec_rank(phase)
            &&& action is Return ==> phase == (ExecPhase::Finalizing { code: action->Return_code })
            &&& (action is Return || action is Abort) <==> next is Finished
        }),
{
}

/// The instance numbers of the jobs of one group grow from each spawn to
/// the next: whatever the group's counter held at first and however many
/// entries were found on disk before each spawn, a later job gets a higher
/// number than every earlier one.
pub proof fn lemma_instance_numbers_increase(stored: Option<int>, entries_on_disk: Seq<int>)
    ensures
        forall|i: int, j: int|
            0 <= i < j < entries_on_disk.len() ==> (#[trigger] spec_allocations(
                stored,
                entries_on_disk,
            )[i]) < (#[trigger] spec_allocations(stored, entries_on_disk)[j]),
{
    lemma_allocations_increase(stored, entries_on_disk);
}

} // verus!
