//! Talking to the review server: the query that a poll sends, what is made
//! of the reply, and the command that posts a review.

use crate::gerrit_types::{GerritChangeSet, GerritQueryError, GerritQueryStats, GerritVoteAction};
use crate::lists::reversed;
use crate::runtime_data::s5ciRuntimeData;
use crate::s5ci_config::s5ciConfig;
use crate::schedule::{time_text, write_time};
use crate::scheduler::{clamp, seconds, spec_clamp, spec_seconds};
use crate::text::{append, chars_of, decimal, same_text, string_of, u64_to_string};
use vstd::prelude::*;

verus! {

/// The part of a query that bounds the time of the changes asked for.
pub open spec fn spec_date_clause(before: Option<Seq<char>>, after: Option<Seq<char>>) -> Seq<
    char,
> {
    match (before, after) {
        (Some(b), Some(a)) => "(before: \\\""@ + b + "\\\" OR after:\\\""@ + a + "\\\")"@,
        (Some(b), None) => "before:\\\""@ + b + "\\\""@,
        (None, Some(a)) => "after:\\\""@ + a + "\\\""@,
        (None, None) => Seq::empty(),
    }
}

/// The command that asks the review server for changes.
pub open spec fn spec_query_command(
    filter: Seq<char>,
    options: Seq<char>,
    before: Option<Seq<char>>,
    after: Option<Seq<char>>,
) -> Seq<char> {
    "gerrit query "@ + filter + " "@ + spec_date_clause(before, after) + " --format JSON "@
        + options
}

/// The command that asks the review server for the changes before and
/// after the given times, written as the server reads them.
pub fn query_command(config: &s5ciConfig, before: Option<&String>, after: Option<&String>) -> (cmd:
    String)
    ensures
        cmd@ == spec_query_command(
            config.default_query.filter@,
            config.default_query.options@,
            match before {
                Some(b) => Some(b@),
                None => None,
            },
            match after {
                Some(a) => Some(a@),
                None => None,
            },
        ),
{
    let mut cmd = "gerrit query ".to_owned();
    append(&mut cmd, config.default_query.filter.as_str());
    append(&mut cmd, " ");
    let ghost head = cmd@;
    match (before, after) {
        (Some(b), Some(a)) => {
            append(&mut cmd, "(before: \\\"");
            append(&mut cmd, b.as_str());
            append(&mut cmd, "\\\" OR after:\\\"");
            append(&mut cmd, a.as_str());
            append(&mut cmd, "\\\")");
            assert(cmd@ =~= head + spec_date_clause(Some(b@), Some(a@)));
        },
        (Some(b), None) => {
            append(&mut cmd, "before:\\\"");
            append(&mut cmd, b.as_str());
            append(&mut cmd, "\\\"");
            assert(cmd@ =~= head + spec_date_clause(Some(b@), None));
        },
        (None, Some(a)) => {
            append(&mut cmd, "after:\\\"");
            append(&mut cmd, a.as_str());
            append(&mut cmd, "\\\"");
            assert(cmd@ =~= head + spec_date_clause(None, Some(a@)));
        },
        (None, None) => {
            assert(cmd@ =~= head + spec_date_clause(None, None));
        },
    }
    append(&mut cmd, " --format JSON ");
    append(&mut cmd, config.default_query.options.as_str());
    cmd
}

/// A bound of a poll as text; `None` for no bound.
pub open spec fn spec_bound_text(bound: Option<i64>) -> Option<Seq<char>> {
    match bound {
        Some(t) => time_text(t),
        None => None,
    }
}

/// The query of a poll for the changes before `before_when` or after
/// `after_when`; `None` where one of the two times cannot be written.
pub fn gerrit_query_changes(
    config: &s5ciConfig,
    before_when: Option<i64>,
    after_when: Option<i64>,
) -> (cmd: Option<String>)
    ensures
        cmd.is_some() == ((before_when matches Some(b) ==> time_text(b).is_some()) && (
        after_when matches Some(a) ==> time_text(a).is_some())),
        cmd matches Some(text) ==> text@ == spec_query_command(
            config.default_query.filter@,
            config.default_query.options@,
            spec_bound_text(before_when),
            spec_bound_text(after_when),
        ),
{
    let before = match before_when {
        Some(b) => match write_time(b) {
            Some(text) => Some(text),
            None => {
                return None;
            },
        },
        None => None,
    };
    let after = match after_when {
        Some(a) => match write_time(a) {
            Some(text) => Some(text),
            None => {
                return None;
            },
        },
        None => None,
    };
    Some(query_command(config, before.as_ref(), after.as_ref()))
}

/// Where the first line of a text ends: the position of its first line
/// feed, or its length where it has none.
pub open spec fn spec_first_newline(s: Seq<char>) -> int
    decreases s.len(),
{
    if s.len() == 0 || s[0] == '\n' {
        0
    } else {
        1 + spec_first_newline(s.drop_first())
    }
}

/// A line without the carriage return that ends it, if one does.
pub open spec fn spec_strip_cr(line: Seq<char>) -> Seq<char> {
    if line.len() > 0 && line.last() == '\r' {
        line.drop_last()
    } else {
        line
    }
}

/// The lines of a text.  A line ends at a line feed, which is not part of
/// it, nor is a carriage return right before the line feed.  What follows
/// the last line feed is a line too, unless it is empty.
pub open spec fn spec_lines(s: Seq<char>) -> Seq<Seq<char>>
    decreases s.len(),
{
    if s.len() == 0 {
        Seq::empty()
    } else {
        let n = spec_first_newline(s);
        if n < 0 || n >= s.len() {
            seq![s]
        } else {
            seq![spec_strip_cr(s.take(n))] + spec_lines(s.skip(n + 1))
        }
    }
}

/// The first line of a text ends at the first line feed.
pub proof fn lemma_first_newline(s: Seq<char>, n: int)
    requires
        0 <= n <= s.len(),
        forall|j: int| 0 <= j < n ==> s[j] != '\n',
        n == s.len() || s[n] == '\n',
    ensures
        spec_first_newline(s) == n,
    decreases s.len(),
{
    if n > 0 {
        let rest = s.drop_first();
        assert forall|j: int| 0 <= j < n - 1 implies rest[j] != '\n' by {
            assert(rest[j] == s[j + 1]);
        }
        lemma_first_newline(rest, n - 1);
    }
}

fn copy_range(v: &Vec<char>, from: usize, to: usize) -> (text: String)
    requires
        from <= to <= v@.len(),
    ensures
        text@ == v@.subrange(from as int, to as int),
{
    let mut out: Vec<char> = Vec::new();
    let mut i: usize = from;
    while i < to
        invariant
            from <= i <= to <= v@.len(),
            out@ == v@.subrange(from as int, i as int),
        decreases to - i,
    {
        out.push(v[i]);
        assert(out@ =~= v@.subrange(from as int, i + 1));
        i += 1;
    }
    string_of(&out)
}

/// The lines of a reply.
pub fn reply_lines(reply: &str) -> (lines: Vec<String>)
    ensures
        lines.deep_view() == spec_lines(reply@),
{
    let v = chars_of(reply);
    let mut lines: Vec<String> = Vec::new();
    let mut start: usize = 0;
    let mut i: usize = 0;
    assert(v@.skip(0) =~= v@);
    assert(lines.deep_view() =~= Seq::<Seq<char>>::empty());
    while i < v.len()
        invariant
            v@ == reply@,
            start <= i <= v@.len(),
            forall|j: int| start <= j < i ==> v@[j] != '\n',
            lines.deep_view() + spec_lines(v@.skip(start as int)) == spec_lines(reply@),
        decreases v.len() - i,
    {
        if v[i] == '\n' {
            let ghost rest = v@.skip(start as int);
            let ghost before = lines.deep_view();
            proof {
                assert forall|j: int| 0 <= j < i - start implies rest[j] != '\n' by {
                    assert(rest[j] == v@[start + j]);
                }
                lemma_first_newline(rest, i - start);
                assert(rest.take(i - start) =~= v@.subrange(start as int, i as int));
                assert(rest.skip(i - start + 1) =~= v@.skip(i + 1));
            }
            let end = if i > start && v[i - 1] == '\r' {
                i - 1
            } else {
                i
            };
            let line = copy_range(&v, start, end);
            assert(line@ =~= spec_strip_cr(rest.take(i - start)));
            lines.push(line);
            assert(lines.deep_view() =~= before.push(spec_strip_cr(rest.take(i - start))));
            assert(lines.deep_view() + spec_lines(v@.skip(i + 1)) =~= before + spec_lines(rest));
            start = i + 1;
        }
        i += 1;
    }
    let ghost rest = v@.skip(start as int);
    let ghost before = lines.deep_view();
    if start < v.len() {
        proof {
            assert forall|j: int| 0 <= j < rest.len() implies rest[j] != '\n' by {
                assert(rest[j] == v@[start + j]);
            }
            lemma_first_newline(rest, rest.len() as int);
            assert(rest =~= v@.subrange(start as int, v@.len() as int));
        }
        let line = copy_range(&v, start, v.len());
        lines.push(line);
        assert(lines.deep_view() =~= before.push(rest));
        assert(before.push(rest) =~= before + spec_lines(rest));
    } else {
        assert(before + spec_lines(rest) =~= before);
    }
    lines
}

/// What one line of a reply reads as: each field holds the record that the
/// line gives when read as a record of that kind, if it can be read so.
#[derive(Debug, Clone)]
pub struct ParsedRow {
    pub error: Option<GerritQueryError>,
    pub stats: Option<GerritQueryStats>,
    pub change: Option<GerritChangeSet>,
}

/// Why a reply could not be used.
#[derive(Debug, Clone)]
pub enum PollError {
    /// The server answered with an error; this is its message.
    QueryBackendError(String),
    /// The line at this position reads neither as statistics nor as a
    /// change.
    UnreadableRow(usize),
}

/// What a poll brought.
#[allow(non_camel_case_types)]
#[derive(Debug, Clone)]
pub struct s5SshResult {
    /// Where to go on fetching older changes, if the server has more.
    pub before_when: Option<i64>,
    /// From when on to fetch newer changes: the time of this poll.
    pub after_when: Option<i64>,
    /// The reply as it came.
    pub output: String,
    pub changes: Vec<GerritChangeSet>,
    pub stats: Option<GerritQueryStats>,
}

/// What the rows of a reply have given so far.
pub struct ReplyFold {
    pub changes: Seq<GerritChangeSet>,
    pub stats: Option<GerritQueryStats>,
    pub more_changes: bool,
    /// The earliest update time among the changes, in seconds, and no
    /// later than the time of the poll.
    pub last_timestamp: i64,
}

/// Whether a row is an error of the server.
pub open spec fn row_is_error(row: ParsedRow) -> bool {
    row.error matches Some(e) && e.record_type@ == "error"@
}

/// What the first `upto` rows of a reply give, read in order.  An error
/// row of the server ends the reading with its message.  A row that reads
/// as statistics sets them, and says whether the server has more.  Any
/// other row has to read as a change, and counts if it says when it was
/// last updated.
pub open spec fn spec_fold_rows(rows: Seq<ParsedRow>, upto: int, poll_secs: i64) -> Result<
    ReplyFold,
    PollError,
>
    decreases upto,
{
    if upto <= 0 {
        Ok(
            ReplyFold {
                changes: Seq::empty(),
                stats: None,
                more_changes: false,
                last_timestamp: poll_secs,
            },
        )
    } else {
        match spec_fold_rows(rows, upto - 1, poll_secs) {
            Err(e) => Err(e),
            Ok(fold) => {
                let row = rows[upto - 1];
                if row_is_error(row) {
                    Err(PollError::QueryBackendError(row.error->Some_0.message))
                } else {
                    match row.stats {
                        Some(stats) => Ok(
                            ReplyFold {
                                stats: Some(stats),
                                more_changes: stats.moreChanges,
                                ..fold
                            },
                        ),
                        None => match row.change {
                            None => Err(PollError::UnreadableRow((upto - 1) as usize)),
                            Some(cs) => match cs.lastUpdated {
                                Some(ts) => Ok(
                                    ReplyFold {
                                        changes: fold.changes.push(cs),
                                        last_timestamp: if ts < fold.last_timestamp {
                                            ts
                                        } else {
                                            fold.last_timestamp
                                        },
                                        ..fold
                                    },
                                ),
                                None => Ok(fold),
                            },
                        },
                    }
                }
            },
        }
    }
}

/// The bounds, the changes and the statistics that a reply gives to a poll
/// made at `now`: newer changes are to be fetched from `now` on, and older
/// ones, if the server has more, from the earliest update time seen.
pub open spec fn spec_poll_result(fold: ReplyFold, reply: Seq<char>, now: i64, r: s5SshResult) -> bool {
    &&& r.after_when == Some(now)
    &&& r.before_when == if fold.more_changes {
        Some(spec_clamp(fold.last_timestamp * 1000))
    } else {
        None
    }
    &&& r.output@ == reply
    &&& r.changes@ == fold.changes
    &&& r.stats == fold.stats
}

/// Makes of the rows of a reply what the next poll needs.  `rows` are the
/// lines of `command_reply` as they read, in order, and `now` is the time
/// of the poll.
pub fn parse_gerrit_poll_command_reply(rows: Vec<ParsedRow>, command_reply: &str, now: i64) -> (r:
    Result<s5SshResult, PollError>)
    ensures
        match spec_fold_rows(rows@, rows@.len() as int, spec_seconds(now) as i64) {
            Ok(fold) => r matches Ok(result) && spec_poll_result(fold, command_reply@, now, result),
            Err(e) => r matches Err(f) && f == e,
        },
{
    let ghost all = rows@;
    let ghost n = rows@.len() as int;
    let count = rows.len();
    let poll_secs = seconds(now);
    let mut last_timestamp: i64 = poll_secs;
    let mut more_changes = false;
    let mut stats: Option<GerritQueryStats> = None;
    let mut changes: Vec<GerritChangeSet> = Vec::new();
    let mut stack = reversed(rows);
    let mut index: usize = 0;
    while stack.len() > 0
        invariant
            n == all.len(),
            n == count,
            all == rows@,
            poll_secs == spec_seconds(now),
            stack@.len() <= n,
            index == n - stack@.len(),
            forall|k: int| 0 <= k < stack@.len() ==> #[trigger] stack@[k] == all[n - 1 - k],
            spec_fold_rows(all, n - stack@.len(), poll_secs) == Ok::<ReplyFold, PollError>(
                ReplyFold { changes: changes@, stats, more_changes, last_timestamp },
            ),
        decreases stack.len(),
    {
        let ghost at = n - stack@.len();
        let row = stack.pop().unwrap();
        assert(row == all[at]);
        let is_error = match &row.error {
            Some(e) => same_text(e.record_type.as_str(), "error"),
            None => false,
        };
        if is_error {
            let message = row.error.unwrap().message;
            proof {
                lemma_fold_error_stays(all, at + 1, n, poll_secs);
            }
            return Err(PollError::QueryBackendError(message));
        }
        match row.stats {
            Some(s) => {
                more_changes = s.moreChanges;
                stats = Some(s);
            },
            None => match row.change {
                None => {
                    proof {
                        lemma_fold_error_stays(all, at + 1, n, poll_secs);
                    }
                    return Err(PollError::UnreadableRow(index));
                },
                Some(cs) => match cs.lastUpdated {
                    Some(ts) => {
                        if ts < last_timestamp {
                            last_timestamp = ts;
                        }
                        changes.push(cs);
                    },
                    None => {},
                },
            },
        }
        index += 1;
    }
    let before_when = if more_changes {
        Some(clamp((last_timestamp as i128) * 1000))
    } else {
        None
    };
    Ok(
        s5SshResult {
            before_when,
            after_when: Some(now),
            output: command_reply.to_owned(),
            changes,
            stats,
        },
    )
}

/// Once the reading of a reply has ended in an error, further rows change
/// nothing.
pub proof fn lemma_fold_error_stays(rows: Seq<ParsedRow>, low: int, high: int, poll_secs: i64)
    requires
        0 <= low <= high,
        spec_fold_rows(rows, low, poll_secs).is_err(),
    ensures
        spec_fold_rows(rows, high, poll_secs) == spec_fold_rows(rows, low, poll_secs),
    decreases high - low,
{
    if low < high {
        lemma_fold_error_stays(rows, low, high - 1, poll_secs);
    }
}

/// From this sandbox level on, a review carries no vote.
pub const SANDBOX_NO_VOTE: u32 = 2;

/// From this sandbox level on, no review is sent.
pub const SANDBOX_NO_REVIEW: u32 = 1;

/// The vote of a review as the review command takes it: the configured
/// words for the vote, after a space; nothing for no vote, and nothing at
/// sandbox level `SANDBOX_NO_VOTE` and above.
pub open spec fn spec_vote_text(
    config: &s5ciConfig,
    sandbox_level: u32,
    maybe_vote: Option<GerritVoteAction>,
) -> Seq<char> {
    match maybe_vote {
        Some(act) => if sandbox_level >= SANDBOX_NO_VOTE {
            Seq::empty()
        } else {
            " "@ + match act {
                GerritVoteAction::success => config.default_vote.success@,
                GerritVoteAction::failure => config.default_vote.failure@,
                GerritVoteAction::clear => config.default_vote.clear@,
            }
        },
        None => Seq::empty(),
    }
}

/// The command that posts a review on a patchset of a change, or on the
/// change as a whole where the patchset is 0.
pub open spec fn spec_review_command(
    changeset_id: u32,
    patchset_id: u32,
    vote: Seq<char>,
    msg: Seq<char>,
) -> Seq<char> {
    let target = if patchset_id == 0 {
        decimal(changeset_id as nat)
    } else {
        decimal(changeset_id as nat) + ","@ + decimal(patchset_id as nat)
    };
    "gerrit review "@ + target + " "@ + vote + " --message \""@ + msg + "\""@
}

/// A review to post.
#[derive(Debug, Clone)]
pub struct ReviewPlan {
    pub command: String,
    /// Whether to send the command; if not, it is only to be logged.
    pub send: bool,
}

/// Plans the posting of a review with the message `msg` and maybe a vote on
/// the change and patchset that the daemon was started for; `None` where
/// it was started for none.  At sandbox level `SANDBOX_NO_REVIEW` and above
/// the review is not to be sent.
pub fn gerrit_add_review_comment(
    config: &s5ciConfig,
    rtdt: &s5ciRuntimeData,
    maybe_vote: &Option<GerritVoteAction>,
    msg: &str,
) -> (plan: Option<ReviewPlan>)
    ensures
        plan.is_some() == (rtdt.changeset_id.is_some() && rtdt.patchset_id.is_some()),
        plan matches Some(p) ==> p.send == (rtdt.sandbox_level < SANDBOX_NO_REVIEW) && p.command@
            == spec_review_command(
            rtdt.changeset_id->Some_0,
            rtdt.patchset_id->Some_0,
            spec_vote_text(config, rtdt.sandbox_level, *maybe_vote),
            msg@,
        ),
{
    let changeset_id = match rtdt.changeset_id {
        Some(id) => id,
        None => {
            return None;
        },
    };
    let patchset_id = match rtdt.patchset_id {
        Some(id) => id,
        None => {
            return None;
        },
    };
    let mut vote = String::new();
    match maybe_vote {
        Some(act) => {
            if rtdt.sandbox_level < SANDBOX_NO_VOTE {
                append(&mut vote, " ");
                match act {
                    GerritVoteAction::success => append(
                        &mut vote,
                        config.default_vote.success.as_str(),
                    ),
                    GerritVoteAction::failure => append(
                        &mut vote,
                        config.default_vote.failure.as_str(),
                    ),
                    GerritVoteAction::clear => append(&mut vote, config.default_vote.clear.as_str()),
                }
            }
        },
        None => {},
    }
    assert(vote@ =~= spec_vote_text(config, rtdt.sandbox_level, *maybe_vote));
    let mut command = "gerrit review ".to_owned();
    let ghost head = command@;
    append(&mut command, u64_to_string(changeset_id as u64).as_str());
    if patchset_id != 0 {
        append(&mut command, ",");
        append(&mut command, u64_to_string(patchset_id as u64).as_str());
    }
    assert(command@ =~= head + if patchset_id == 0 {
        decimal(changeset_id as nat)
    } else {
        decimal(changeset_id as nat) + ","@ + decimal(patchset_id as nat)
    });
    append(&mut command, " ");
    append(&mut command, vote.as_str());
    append(&mut command, " --message \"");
    append(&mut command, msg);
    append(&mut command, "\"");
    Some(ReviewPlan { command, send: rtdt.sandbox_level < SANDBOX_NO_REVIEW })
}

} // verus!
