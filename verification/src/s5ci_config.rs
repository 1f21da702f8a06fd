//! The daemon's configuration, as loaded once at startup.
//!
//! Tables that are keyed by a trigger name are lists of named entries, in
//! the order of the configuration file; a name is meant to occur once, and
//! a lookup takes the first entry that carries it.

use crate::text::{same_text, u64_to_string};
use vstd::prelude::*;
use vstd::string::StringExecFns;

verus! {

/// A bound on the time of the changes that a poll asks for, in
/// milliseconds of local time since the epoch.
#[derive(Debug, Clone, Copy)]
pub enum BeforeAfter {
    Before(i64),
    After(i64),
    Any,
}

#[allow(non_camel_case_types)]
#[derive(Debug, Clone)]
pub struct s5SshAuthPubkeyFile {
    pub username: String,
    pub pubkey: Option<String>,
    pub privatekey: String,
    pub passphrase: Option<String>,
}

#[allow(non_camel_case_types)]
#[derive(Debug, Clone)]
pub struct s5SshAuthPassword {
    pub username: String,
    pub password: String,
}

#[allow(non_camel_case_types)]
#[derive(Debug, Clone)]
pub struct s5SshAuthAgent {
    pub username: String,
}

#[allow(non_camel_case_types)]
#[derive(Debug, Clone)]
pub enum s5SshAuth {
    auth_pubkey_file(s5SshAuthPubkeyFile),
    auth_password(s5SshAuthPassword),
    auth_agent(s5SshAuthAgent),
}

#[allow(non_camel_case_types)]
#[derive(Debug, Clone)]
pub struct s5ciDirectSshPoll {
    pub auth: Option<s5SshAuth>,
}

#[allow(non_camel_case_types)]
#[derive(Debug, Clone)]
pub struct s5ciShellPoll {
    pub command: String,
    pub args: Vec<String>,
}

#[allow(non_camel_case_types)]
#[derive(Debug, Clone)]
pub enum s5ciPollType {
    direct_ssh(s5ciDirectSshPoll),
    shell(s5ciShellPoll),
}

/// Where and how often to poll the review server.  The address is kept as
/// the configuration wrote it.
#[allow(non_camel_case_types)]
#[derive(Debug, Clone)]
pub struct s5ciPollGerrit {
    pub address: String,
    pub port: u16,
    pub poll_type: s5ciPollType,
    pub poll_wait_ms: Option<u64>,
    pub syncing_poll_wait_ms: Option<u64>,
    pub sync_horizon_sec: Option<u32>,
}

#[allow(non_camel_case_types)]
#[derive(Debug, Clone)]
pub struct s5GerritQuery {
    pub filter: String,
    pub options: String,
}

#[allow(non_camel_case_types)]
#[derive(Debug, Clone)]
pub struct s5GerritVote {
    pub success: String,
    pub failure: String,
    pub clear: String,
}

/// What a trigger does when it fires.  Only a command starts a job.
#[allow(non_camel_case_types)]
#[derive(Debug, Clone)]
pub enum s5TriggerAction {
    event(String),
    command(String),
}

#[allow(non_camel_case_types)]
#[derive(Debug, Clone)]
pub struct s5GerritTrigger {
    pub project: Option<String>,
    pub branch: Option<String>,
    pub regex: String,
    pub suppress_regex: Option<String>,
    pub action: s5TriggerAction,
}

#[allow(non_camel_case_types)]
#[derive(Debug, Clone)]
pub struct s5CronTrigger {
    pub cron: String,
    pub action: s5TriggerAction,
}

#[allow(non_camel_case_types)]
#[derive(Debug, Clone)]
pub struct s5ciJobs {
    pub rootdir: String,
    pub root_url: String,
}

#[allow(non_camel_case_types)]
#[derive(Debug, Clone, Copy)]
pub struct s5AutorestartConfig {
    pub on_config_change: bool,
    pub on_exe_change: bool,
}

#[allow(non_camel_case_types)]
#[derive(Debug, Clone)]
pub struct s5PerProjectConfigInfo {
    pub root_dir: String,
    pub projects: Vec<String>,
}

#[allow(non_camel_case_types)]
#[derive(Debug, Clone)]
pub struct s5PerProjectConfig {
    pub commit_triggers: Option<Vec<(String, s5GerritTrigger)>>,
    pub cron_triggers: Option<Vec<(String, s5CronTrigger)>>,
}

#[allow(non_camel_case_types)]
#[derive(Debug, Clone)]
pub struct s5ciConfig {
    pub default_auth: s5SshAuth,
    pub server: s5ciPollGerrit,
    pub default_query: s5GerritQuery,
    pub default_vote: s5GerritVote,
    pub default_batch_command: Option<String>,
    pub default_sync_horizon_sec: Option<u32>,
    pub default_regex_trigger_delay_sec: Option<u32>,
    pub command_rootdir: String,
    pub triggers: Option<Vec<(String, s5GerritTrigger)>>,
    pub cron_triggers: Option<Vec<(String, s5CronTrigger)>>,
    pub patchset_extract_regex: String,
    pub hostname: String,
    pub install_rootdir: String,
    pub autorestart: s5AutorestartConfig,
    pub db_url: String,
    pub jobs: s5ciJobs,
    pub per_project_config: Option<s5PerProjectConfigInfo>,
}

#[allow(non_camel_case_types)]
#[derive(Debug, Clone)]
pub struct s5ciProjectConfig {
    pub commit_triggers: Option<Vec<(String, s5GerritTrigger)>>,
    pub cron_triggers: Option<Vec<(String, s5CronTrigger)>>,
}

impl s5ciPollGerrit {
    /// The server's address and port, joined by a colon.
    pub fn get_server_address_port(&self) -> (s: String)
        ensures
            s@ == self.address@ + seq![':'] + crate::text::decimal(self.port as nat),
    {
        let mut out = String::from_str(self.address.as_str());
        proof {
            reveal_strlit(":");
        }
        out.append(":");
        assert(":"@ =~= seq![':']);
        let port = u64_to_string(self.port as u64);
        out.append(port.as_str());
        out
    }
}

/// Position of the first entry named `name`.
pub open spec fn spec_position_of<T>(entries: Seq<(String, T)>, name: Seq<char>) -> Option<int>
    decreases entries.len(),
{
    if entries.len() == 0 {
        None
    } else if entries[0].0@ == name {
        Some(0)
    } else {
        match spec_position_of(entries.subrange(1, entries.len() as int), name) {
            Some(i) => Some(i + 1),
            None => None,
        }
    }
}

/// `spec_position_of` finds the first entry of that name, and finds none
/// only if there is none.
pub proof fn lemma_position_of<T>(entries: Seq<(String, T)>, name: Seq<char>)
    ensures
        match spec_position_of(entries, name) {
            Some(i) => 0 <= i < entries.len() && entries[i].0@ == name && forall|j: int|
                0 <= j < i ==> (#[trigger] entries[j]).0@ != name,
            None => forall|j: int| 0 <= j < entries.len() ==> (#[trigger] entries[j]).0@ != name,
        },
    decreases entries.len(),
{
    if entries.len() > 0 && entries[0].0@ != name {
        let rest = entries.subrange(1, entries.len() as int);
        lemma_position_of(rest, name);
        match spec_position_of(rest, name) {
            Some(i) => {
                assert forall|j: int| 0 <= j < i + 1 implies (#[trigger] entries[j]).0@ != name by {
                    if j > 0 {
                        assert(rest[j - 1].0@ != name);
                    }
                }
            },
            None => {
                assert forall|j: int| 0 <= j < entries.len() implies (#[trigger] entries[j]).0@
                    != name by {
                    if j > 0 {
                        assert(rest[j - 1].0@ != name);
                    }
                }
            },
        }
    }
}

/// The first entry named `name`, if there is one.
pub fn position_of<T>(entries: &Vec<(String, T)>, name: &str) -> (at: Option<usize>)
    ensures
        match at {
            Some(i) => spec_position_of(entries@, name@) == Some(i as int),
            None => spec_position_of(entries@, name@).is_none(),
        },
{
    let mut i: usize = 0;
    while i < entries.len()
        invariant
            i <= entries@.len(),
            forall|j: int| 0 <= j < i ==> (#[trigger] entries@[j]).0@ != name@,
        decreases entries.len() - i,
    {
        if same_text(entries[i].0.as_str(), name) {
            proof {
                lemma_position_of(entries@, name@);
            }
            return Some(i);
        }
        i += 1;
    }
    proof {
        lemma_position_of(entries@, name@);
    }
    None
}

/// Whether every name of a table occurs once: then the first entry of a
/// name is the only one.
pub open spec fn names_unique<T>(entries: Seq<(String, T)>) -> bool {
    forall|i: int, j: int|
        0 <= i < j < entries.len() ==> (#[trigger] entries[i]).0@ != (#[trigger] entries[j]).0@
}

/// In a table whose names are unique, a lookup by the name of an entry
/// finds that entry.
pub proof fn lemma_unique_name_position<T>(entries: Seq<(String, T)>, i: int)
    requires
        names_unique(entries),
        0 <= i < entries.len(),
    ensures
        spec_position_of(entries, entries[i].0@) == Some(i),
{
    lemma_position_of(entries, entries[i].0@);
    let found = spec_position_of(entries, entries[i].0@);
    if found.is_none() {
        assert(entries[i].0@ != entries[i].0@);
    } else {
        let p = found.unwrap();
        if p < i {
            assert(entries[p].0@ != entries[i].0@);
        } else if p > i {
            assert(entries[i].0@ != entries[i].0@);
        }
    }
}

/// The position of the first entry whose name an earlier entry has
/// already; `None` exactly where every name occurs once.
pub fn repeated_name<T>(entries: &Vec<(String, T)>) -> (at: Option<usize>)
    ensures
        at.is_none() == names_unique(entries@),
        at matches Some(j) ==> j < entries@.len() && names_unique(entries@.take(j as int))
            && exists|i: int| 0 <= i < j && (#[trigger] entries@[i]).0@ == entries@[j as int].0@,
{
    let mut j: usize = 0;
    assert(names_unique(entries@.take(0)));
    while j < entries.len()
        invariant
            j <= entries@.len(),
            names_unique(entries@.take(j as int)),
        decreases entries.len() - j,
    {
        let first = position_of(entries, entries[j].0.as_str());
        proof {
            lemma_position_of(entries@, entries@[j as int].0@);
        }
        match first {
            Some(p) => {
                if p != j {
                    assert(p < j) by {
                        if p > j {
                            assert(entries@[j as int].0@ != entries@[j as int].0@);
                        }
                    }
                    assert(entries@[p as int].0@ == entries@[j as int].0@);
                    assert(!names_unique(entries@));
                    return Some(j);
                }
            },
            None => {
                assert(entries@[j as int].0@ != entries@[j as int].0@);
            },
        }
        assert(names_unique(entries@.take(j + 1))) by {
            let longer = entries@.take(j + 1);
            assert forall|a: int, b: int| 0 <= a < b < longer.len() implies (#[trigger] longer[a]).0@
                != (#[trigger] longer[b]).0@ by {
                if b < j {
                    assert(entries@.take(j as int)[a].0@ != entries@.take(j as int)[b].0@);
                } else {
                    assert(entries@[a].0@ != entries@[j as int].0@);
                }
            }
        }
        j += 1;
    }
    assert(entries@.take(entries@.len() as int) =~= entries@);
    None
}

} // verus!
