//! From the comments of a review thread to the commands to run: which
//! comments match which trigger, which occurrences a later comment has
//! cancelled, and which of the rest may start a job.

use crate::bindings::{bindings, spec_bindings};
use crate::captures::CaptureMap;
use crate::gerrit_types::{GerritChangeSet, GerritComment, GerritPatchSet};
use crate::lists::reversed;
use crate::pattern::{
    group_names, is_match, named_group, regex_group_names, regex_matches, regex_named_group,
};
use crate::runtime_data::{s5ciRuntimeData, spec_triggers, CommentTriggerRegex};
use crate::s5ci_config::{
    position_of, s5GerritTrigger, s5TriggerAction, s5ciConfig, spec_position_of,
};
use crate::template::{TemplateData, TemplateValue};
use crate::text::{
    decimal, has_prefix, parse_u32, safe_or_underscores, same_text, spec_parse_u32,
    spec_safe_or_underscores, u64_to_string,
};
use regex::Regex;
use vstd::prelude::*;

verus! {

/// One match of a trigger pattern in one comment.
#[derive(Debug, Clone)]
pub struct CommentTrigger {
    /// Position of the comment in its thread.
    pub comment_index: u32,
    pub trigger_name: String,
    pub patchset_id: u32,
    pub captures: CaptureMap,
    /// The suppression pattern matched, not the trigger's own.
    pub is_suppress: bool,
    /// A later occurrence has cancelled this one.
    pub is_suppressed: bool,
}

/// What a `CommentTrigger` holds, as mathematical values.
pub struct CommentTriggerView {
    pub comment_index: u32,
    pub trigger_name: Seq<char>,
    pub patchset_id: u32,
    pub captures: Map<Seq<char>, Seq<char>>,
    pub is_suppress: bool,
    pub is_suppressed: bool,
}

impl View for CommentTrigger {
    type V = CommentTriggerView;

    open spec fn view(&self) -> CommentTriggerView {
        CommentTriggerView {
            comment_index: self.comment_index,
            trigger_name: self.trigger_name@,
            patchset_id: self.patchset_id,
            captures: self.captures@,
            is_suppress: self.is_suppress,
            is_suppressed: self.is_suppressed,
        }
    }
}

/// The views of a list of triggers, in order.
pub open spec fn trigger_views(triggers: Seq<CommentTrigger>) -> Seq<CommentTriggerView> {
    Seq::new(triggers.len(), |i: int| triggers[i]@)
}

/// What suppression goes by: the trigger's name and the patchset.
pub open spec fn trigger_key(t: CommentTriggerView) -> (Seq<char>, u32) {
    (t.trigger_name, t.patchset_id)
}

/// The keys that stand marked as suppressed once the occurrences from
/// position `from` to the end have been visited, newest first: a
/// suppressing occurrence marks its key, a normal one clears it.
pub open spec fn pending_suppressions(ts: Seq<CommentTriggerView>, from: int) -> Set<
    (Seq<char>, u32),
>
    decreases ts.len() - from,
{
    if from < 0 || from >= ts.len() {
        Set::empty()
    } else {
        let later = pending_suppressions(ts, from + 1);
        if ts[from].is_suppress {
            later.insert(trigger_key(ts[from]))
        } else {
            later.remove(trigger_key(ts[from]))
        }
    }
}

/// Whether the walk cancels the occurrence at position `i`: it is a normal
/// occurrence and its key stands marked when the walk reaches it.
pub open spec fn suppressed_at(ts: Seq<CommentTriggerView>, i: int) -> bool {
    !ts[i].is_suppress && pending_suppressions(ts, i + 1).contains(trigger_key(ts[i]))
}

/// The occurrence at position `i` after suppression resolution.
pub open spec fn spec_resolved(ts: Seq<CommentTriggerView>, i: int) -> CommentTriggerView {
    CommentTriggerView { is_suppressed: ts[i].is_suppressed || suppressed_at(ts, i), ..ts[i] }
}

/// The keys that a list of marks holds.
pub open spec fn marked_keys(marks: Seq<(String, u32)>) -> Set<(Seq<char>, u32)> {
    Set::new(
        |key: (Seq<char>, u32)|
            exists|i: int| 0 <= i < marks.len() && mark_key(#[trigger] marks[i]) == key,
    )
}

pub open spec fn mark_key(mark: (String, u32)) -> (Seq<char>, u32) {
    (mark.0@, mark.1)
}

fn is_marked(marks: &Vec<(String, u32)>, name: &str, patchset_id: u32) -> (found: bool)
    ensures
        found == marked_keys(marks@).contains((name@, patchset_id)),
{
    let mut i: usize = 0;
    while i < marks.len()
        invariant
            i <= marks@.len(),
            forall|j: int| 0 <= j < i ==> mark_key(#[trigger] marks@[j]) != (name@, patchset_id),
        decreases marks.len() - i,
    {
        if marks[i].1 == patchset_id && same_text(marks[i].0.as_str(), name) {
            assert(mark_key(marks@[i as int]) == (name@, patchset_id));
            return true;
        }
        i += 1;
    }
    false
}

/// Whether `mark` stands in the list at or after position `from`.
pub open spec fn occurs_from(marks: Seq<(String, u32)>, from: int, mark: (String, u32)) -> bool {
    exists|k: int| from <= k < marks.len() && #[trigger] marks[k] == mark
}

fn unmark(marks: Vec<(String, u32)>, name: &str, patchset_id: u32) -> (rest: Vec<(String, u32)>)
    ensures
        marked_keys(rest@) == marked_keys(marks@).remove((name@, patchset_id)),
{
    let ghost key = (name@, patchset_id);
    let ghost all = marks@;
    let mut marks = marks;
    let mut rest: Vec<(String, u32)> = Vec::new();
    while marks.len() > 0
        invariant
            key == (name@, patchset_id),
            marks@.len() <= all.len(),
            marks@ == all.subrange(0, marks@.len() as int),
            forall|j: int| 0 <= j < rest@.len() ==> mark_key(#[trigger] rest@[j]) != key,
            forall|j: int|
                0 <= j < rest@.len() ==> occurs_from(all, marks@.len() as int, #[trigger] rest@[j]),
            forall|k: int|
                marks@.len() <= k < all.len() && mark_key(#[trigger] all[k]) != key
                    ==> occurs_from(rest@, 0, all[k]),
        decreases marks.len(),
    {
        let ghost before = rest@;
        let ghost n = marks@.len() - 1;
        let mark = marks.pop().unwrap();
        assert(mark == all[n]);
        if !(mark.1 == patchset_id && same_text(mark.0.as_str(), name)) {
            rest.push(mark);
            assert forall|j: int| 0 <= j < rest@.len() implies occurs_from(
                all,
                n,
                #[trigger] rest@[j],
            ) by {
                if j < before.len() {
                    assert(rest@[j] == before[j]);
                    assert(occurs_from(all, n + 1, before[j]));
                    let k = choose|k: int| n + 1 <= k < all.len() && #[trigger] all[k] == before[j];
                    assert(all[k] == rest@[j]);
                } else {
                    assert(all[n] == rest@[j]);
                }
            }
            assert forall|k: int|
                n <= k < all.len() && mark_key(#[trigger] all[k]) != key implies occurs_from(
                rest@,
                0,
                all[k],
            ) by {
                if k == n {
                    assert(rest@[before.len() as int] == all[k]);
                } else {
                    assert(occurs_from(before, 0, all[k]));
                    let j = choose|j: int| 0 <= j < before.len() && #[trigger] before[j] == all[k];
                    assert(rest@[j] == all[k]);
                }
            }
        } else {
            assert(mark_key(all[n]) == key);
            assert forall|j: int| 0 <= j < rest@.len() implies occurs_from(
                all,
                n,
                #[trigger] rest@[j],
            ) by {
                assert(occurs_from(all, n + 1, rest@[j]));
                let k = choose|k: int| n + 1 <= k < all.len() && #[trigger] all[k] == rest@[j];
                assert(all[k] == rest@[j]);
            }
        }
    }
    assert(marked_keys(rest@) =~= marked_keys(all).remove(key)) by {
        assert forall|q: (Seq<char>, u32)| marked_keys(rest@).contains(q) implies marked_keys(
            all,
        ).remove(key).contains(q) by {
            let j = choose|j: int| 0 <= j < rest@.len() && mark_key(#[trigger] rest@[j]) == q;
            assert(occurs_from(all, 0, rest@[j]));
            let k = choose|k: int| 0 <= k < all.len() && #[trigger] all[k] == rest@[j];
            assert(mark_key(all[k]) == q);
        }
        assert forall|q: (Seq<char>, u32)|
            marked_keys(all).remove(key).contains(q) implies marked_keys(rest@).contains(q) by {
            let k = choose|k: int| 0 <= k < all.len() && mark_key(#[trigger] all[k]) == q;
            assert(occurs_from(rest@, 0, all[k]));
            let j = choose|j: int| 0 <= j < rest@.len() && #[trigger] rest@[j] == all[k];
            assert(mark_key(rest@[j]) == q);
        }
    }
    rest
}

/// Resolves suppression among the occurrences of one review thread, given
/// in the order of their comments.  The list is walked from the newest
/// occurrence to the oldest: a suppressing occurrence marks its trigger name
/// and patchset, and the next normal occurrence of that name and patchset
/// is flagged as suppressed and clears the mark.  Nothing else changes.
pub fn resolve_suppressions(triggers: Vec<CommentTrigger>) -> (resolved: Vec<CommentTrigger>)
    ensures
        resolved@.len() == triggers@.len(),
        forall|i: int|
            0 <= i < triggers@.len() ==> (#[trigger] resolved@[i])@ == spec_resolved(
                trigger_views(triggers@),
                i,
            ),
{
    let ghost all = triggers@;
    let ghost views = trigger_views(triggers@);
    let ghost n = triggers@.len() as int;
    let mut rest = triggers;
    let mut newest_first: Vec<CommentTrigger> = Vec::new();
    let mut marks: Vec<(String, u32)> = Vec::new();
    while rest.len() > 0
        invariant
            n == all.len(),
            views == trigger_views(all),
            rest@.len() <= n,
            rest@ == all.subrange(0, rest@.len() as int),
            newest_first@.len() == n - rest@.len(),
            forall|k: int|
                0 <= k < newest_first@.len() ==> (#[trigger] newest_first@[k])@ == spec_resolved(
                    views,
                    n - 1 - k,
                ),
            marked_keys(marks@) == pending_suppressions(views, rest@.len() as int),
        decreases rest.len(),
    {
        let ghost i = rest@.len() - 1;
        let ghost marks_before = marks@;
        let mut t = rest.pop().unwrap();
        assert(t == all[i]);
        assert(views[i] == t@);
        if t.is_suppress {
            marks.push((t.trigger_name.clone(), t.patchset_id));
            assert(marked_keys(marks@) =~= marked_keys(marks_before).insert(trigger_key(t@))) by {
                assert(mark_key(marks@[marks_before.len() as int]) == trigger_key(t@));
                assert forall|q: (Seq<char>, u32)|
                    marked_keys(marks_before).contains(q) implies marked_keys(marks@).contains(
                    q,
                ) by {
                    let j = choose|j: int|
                        0 <= j < marks_before.len() && mark_key(#[trigger] marks_before[j]) == q;
                    assert(mark_key(marks@[j]) == q);
                }
                assert forall|q: (Seq<char>, u32)|
                    marked_keys(marks@).contains(q) && q != trigger_key(
                        t@,
                    ) implies marked_keys(marks_before).contains(q) by {
                    let j = choose|j: int|
                        0 <= j < marks@.len() && mark_key(#[trigger] marks@[j]) == q;
                    assert(mark_key(marks_before[j]) == q);
                }
            }
        } else if is_marked(&marks, t.trigger_name.as_str(), t.patchset_id) {
            t.is_suppressed = true;
            marks = unmark(marks, t.trigger_name.as_str(), t.patchset_id);
        } else {
            assert(marked_keys(marks@) =~= marked_keys(marks@).remove(trigger_key(t@)));
        }
        assert(t@ == spec_resolved(views, i));
        newest_first.push(t);
    }
    reversed(newest_first)
}

/// A key stands marked at position `from` exactly when some suppressing
/// occurrence at or after `from` carries it and no normal occurrence of the
/// key lies between `from` and that occurrence.
pub proof fn lemma_pending_suppressions(
    ts: Seq<CommentTriggerView>,
    from: int,
    key: (Seq<char>, u32),
)
    requires
        0 <= from,
    ensures
        pending_suppressions(ts, from).contains(key) <==> exists|j: int|
            #[trigger] marks_from(ts, from, key, j),
    decreases ts.len() - from,
{
    if from < ts.len() {
        lemma_pending_suppressions(ts, from + 1, key);
        let later = pending_suppressions(ts, from + 1);
        let here = trigger_key(ts[from]);
        if here == key {
            if ts[from].is_suppress {
                assert(marks_from(ts, from, key, from));
            } else {
                assert forall|j: int| !#[trigger] marks_from(ts, from, key, j) by {
                    if marks_from(ts, from, key, j) {
                        assert(j > from);
                        assert(!(trigger_key(ts[from]) == key && !ts[from].is_suppress));
                    }
                }
            }
        } else {
            if later.contains(key) {
                let j = choose|j: int| #[trigger] marks_from(ts, from + 1, key, j);
                assert(marks_from(ts, from, key, j));
            }
            if exists|j: int| #[trigger] marks_from(ts, from, key, j) {
                let j = choose|j: int| #[trigger] marks_from(ts, from, key, j);
                assert(marks_from(ts, from + 1, key, j));
            }
        }
    } else {
        assert forall|j: int| !#[trigger] marks_from(ts, from, key, j) by {}
    }
}

/// The occurrence at `j` is a suppressing one carrying `key`, at or after
/// `from`, with no normal occurrence of `key` from `from` up to it.
pub open spec fn marks_from(
    ts: Seq<CommentTriggerView>,
    from: int,
    key: (Seq<char>, u32),
    j: int,
) -> bool {
    &&& from <= j < ts.len()
    &&& trigger_key(ts[j]) == key
    &&& ts[j].is_suppress
    &&& forall|k: int|
        from <= k < j ==> !(trigger_key(#[trigger] ts[k]) == key && !ts[k].is_suppress)
}

/// A normal occurrence is suppressed exactly when a later suppressing
/// occurrence of the same trigger name and patchset exists with no other
/// normal occurrence of that name and patchset between the two: a
/// cancelling comment suppresses the nearest earlier occurrence, and only
/// that one.  A suppressing occurrence is never itself suppressed.
pub proof fn lemma_suppression_hits_nearest(ts: Seq<CommentTriggerView>, i: int)
    requires
        0 <= i < ts.len(),
    ensures
        ts[i].is_suppress ==> !suppressed_at(ts, i),
        !ts[i].is_suppress ==> (suppressed_at(ts, i) <==> exists|j: int|
            #[trigger] marks_from(ts, i + 1, trigger_key(ts[i]), j)),
{
    lemma_pending_suppressions(ts, i + 1, trigger_key(ts[i]));
}

/// One suppressing occurrence cancels at most one normal occurrence: of two
/// normal occurrences of the same name and patchset with no suppressing
/// occurrence of that key between them, the earlier one is not suppressed.
pub proof fn lemma_suppression_is_one_shot(ts: Seq<CommentTriggerView>, i: int, j: int)
    requires
        0 <= i < j < ts.len(),
        !ts[i].is_suppress,
        !ts[j].is_suppress,
        trigger_key(ts[i]) == trigger_key(ts[j]),
        forall|k: int|
            i < k < j ==> !(trigger_key(#[trigger] ts[k]) == trigger_key(ts[i])
                && ts[k].is_suppress),
    ensures
        !suppressed_at(ts, i),
{
    let key = trigger_key(ts[i]);
    lemma_pending_suppressions(ts, i + 1, key);
    assert forall|m: int| !#[trigger] marks_from(ts, i + 1, key, m) by {
        if marks_from(ts, i + 1, key, m) {
            if m > j {
                assert(trigger_key(ts[j]) == key && !ts[j].is_suppress);
            } else if m < j {
                assert(!(trigger_key(ts[m]) == key && ts[m].is_suppress));
            }
        }
    }
}

/// Whether a trigger's project filter lets a change of `project` through:
/// a trigger without a filter takes every change, one with a filter only
/// the changes of exactly that project.
pub open spec fn project_allows(filter: Option<String>, project: Option<String>) -> bool {
    match filter {
        None => true,
        Some(wanted) => match project {
            Some(actual) => actual@ == wanted@,
            None => false,
        },
    }
}

/// Whether an occurrence may start a job: it is a normal occurrence that
/// no later one has suppressed, and the first definition of its name exists,
/// lets the change's project through and runs a command.
pub open spec fn spec_runnable(
    t: CommentTriggerView,
    definitions: Seq<(String, s5GerritTrigger)>,
    project: Option<String>,
) -> bool {
    &&& !t.is_suppress
    &&& !t.is_suppressed
    &&& match spec_position_of(definitions, t.trigger_name) {
        Some(i) => project_allows(definitions[i].1.project, project)
            && definitions[i].1.action is command,
        None => false,
    }
}

/// `spec_runnable` as a predicate on occurrences.
pub open spec fn runnable_among(
    definitions: Seq<(String, s5GerritTrigger)>,
    project: Option<String>,
) -> spec_fn(CommentTriggerView) -> bool {
    |t: CommentTriggerView| spec_runnable(t, definitions, project)
}

fn runnable(
    t: &CommentTrigger,
    definitions: &Vec<(String, s5GerritTrigger)>,
    project: &Option<String>,
) -> (b: bool)
    ensures
        b == spec_runnable(t@, definitions@, *project),
{
    if t.is_suppress || t.is_suppressed {
        return false;
    }
    match position_of(definitions, t.trigger_name.as_str()) {
        Some(i) => {
            proof {
                crate::s5ci_config::lemma_position_of(definitions@, t.trigger_name@);
            }
            let definition = &definitions[i].1;
            let allowed = match &definition.project {
                None => true,
                Some(wanted) => match project {
                    Some(actual) => same_text(actual.as_str(), wanted.as_str()),
                    None => false,
                },
            };
            let runs_command = match &definition.action {
                s5TriggerAction::command(_) => true,
                s5TriggerAction::event(_) => false,
            };
            allowed && runs_command
        },
        None => false,
    }
}

/// Keeps, in order, the occurrences that may start a job, after suppression
/// has been resolved.  Dropped are: every suppressing occurrence, every
/// suppressed one, every one whose trigger is not defined, whose
/// definition names another project than the change's, or whose action is
/// not a command.
pub fn filter_triggers(
    triggers: Vec<CommentTrigger>,
    definitions: &Vec<(String, s5GerritTrigger)>,
    project: &Option<String>,
) -> (kept: Vec<CommentTrigger>)
    ensures
        trigger_views(kept@) == trigger_views(triggers@).filter(
            runnable_among(definitions@, *project),
        ),
{
    let ghost all = trigger_views(triggers@);
    let ghost pred = runnable_among(definitions@, *project);
    let ghost n = triggers@.len() as int;
    let ghost given = triggers@;
    let mut stack = reversed(triggers);
    let mut kept: Vec<CommentTrigger> = Vec::new();
    proof {
        reveal(Seq::filter);
    }
    assert(all.take(0).filter(pred) =~= Seq::<CommentTriggerView>::empty());
    assert(trigger_views(kept@) =~= Seq::<CommentTriggerView>::empty());
    while stack.len() > 0
        invariant
            n == given.len(),
            all == trigger_views(given),
            pred == runnable_among(definitions@, *project),
            stack@.len() <= n,
            forall|k: int| 0 <= k < stack@.len() ==> #[trigger] stack@[k] == given[n - 1 - k],
            trigger_views(kept@) == all.take(n - stack@.len()).filter(pred),
        decreases stack.len(),
    {
        let ghost i = n - stack@.len();
        let ghost kept_before = kept@;
        let t = stack.pop().unwrap();
        assert(t == given[i]);
        proof {
            reveal(Seq::filter);
        }
        assert(all.take(i + 1).drop_last() =~= all.take(i));
        assert(all.take(i + 1).last() == t@);
        if runnable(&t, definitions, project) {
            kept.push(t);
            assert(trigger_views(kept@) =~= trigger_views(kept_before).push(t@));
        }
    }
    assert(all.take(n) =~= all);
    kept
}

/// The key under which the patchset number stands among the captures.
pub open spec fn patchset_key() -> Seq<char> {
    "patchset"@
}

/// How the review server opens the comment that reports a merge.
pub open spec fn merge_notice_prefix() -> Seq<char> {
    "Change has been successfully merged by "@
}

/// The patchset number that a comment names by itself, made safe; empty
/// where the extraction pattern finds none.
pub open spec fn spec_patchset_candidate(extract: Regex, message: Seq<char>) -> Seq<char> {
    match regex_named_group(extract, message, patchset_key()) {
        Some(found) => spec_safe_or_underscores(found),
        None => Seq::empty(),
    }
}

/// The captures of one occurrence: the patchset candidate, then, for each
/// named group in `names` that took part in the match of `values_from`, the
/// group's text made safe, a later binding replacing an earlier one.
pub open spec fn spec_captured(
    names: Seq<Option<Seq<char>>>,
    values_from: Regex,
    message: Seq<char>,
    candidate: Seq<char>,
) -> Map<Seq<char>, Seq<char>>
    decreases names.len(),
{
    if names.len() == 0 {
        Map::empty().insert(patchset_key(), candidate)
    } else {
        let before = spec_captured(names.drop_last(), values_from, message, candidate);
        match names.last() {
            Some(name) => match regex_named_group(values_from, message, name) {
                Some(found) => before.insert(name, spec_safe_or_underscores(found)),
                None => before,
            },
            None => before,
        }
    }
}

/// The text that stands for the patchset among the captures; empty if
/// nothing does.
pub open spec fn spec_patchset_text(captures: Map<Seq<char>, Seq<char>>) -> Seq<char> {
    if captures.contains_key(patchset_key()) {
        captures[patchset_key()]
    } else {
        Seq::empty()
    }
}

/// The captures and the patchset number of an occurrence, settled: a
/// patchset text that reads as a number gives that number.  One that does
/// not is, in a merge notice, replaced by the change's highest patchset
/// number; in any other comment it is kept as it is and the number is 0.
pub open spec fn spec_settle_patchset(
    captures: Map<Seq<char>, Seq<char>>,
    is_merge_notice: bool,
    max_pset: u32,
) -> (Map<Seq<char>, Seq<char>>, u32) {
    match spec_parse_u32(spec_patchset_text(captures)) {
        Some(number) => (captures, number),
        None => if is_merge_notice {
            (captures.insert(patchset_key(), decimal(max_pset as nat)), max_pset)
        } else {
            (captures, 0)
        },
    }
}

/// Whether the patchset of an occurrence could not be read as a number: a
/// fault in the comment's data, to be reported and lived with.
pub open spec fn spec_patchset_unreadable(t: CommentTriggerView) -> bool {
    spec_parse_u32(spec_patchset_text(t.captures)).is_none()
}

/// The occurrence that a match gives.
pub open spec fn spec_occurrence(
    index: u32,
    name: Seq<char>,
    captures: Map<Seq<char>, Seq<char>>,
    is_merge_notice: bool,
    max_pset: u32,
    is_suppress: bool,
) -> CommentTriggerView {
    let settled = spec_settle_patchset(captures, is_merge_notice, max_pset);
    CommentTriggerView {
        comment_index: index,
        trigger_name: name,
        patchset_id: settled.1,
        captures: settled.0,
        is_suppress,
        is_suppressed: false,
    }
}

/// The occurrences that one trigger gives for one comment: a normal one if
/// its pattern matches, then a suppressing one if it has a suppression
/// pattern and that matches.  Both take their group names from the
/// trigger's own pattern.
pub open spec fn spec_definition_triggers(
    index: u32,
    message: Seq<char>,
    extract: Regex,
    tr: CommentTriggerRegex,
    max_pset: u32,
) -> Seq<CommentTriggerView> {
    let candidate = spec_patchset_candidate(extract, message);
    let merged = merge_notice_prefix().is_prefix_of(message);
    let names = regex_group_names(tr.r);
    let normal = if regex_matches(tr.r, message) {
        seq![
            spec_occurrence(
                index,
                tr.name@,
                spec_captured(names, tr.r, message, candidate),
                merged,
                max_pset,
                false,
            ),
        ]
    } else {
        Seq::empty()
    };
    let suppressing = match tr.r_suppress {
        Some(rs) => if regex_matches(rs, message) {
            seq![
                spec_occurrence(
                    index,
                    tr.name@,
                    spec_captured(names, rs, message, candidate),
                    merged,
                    max_pset,
                    true,
                ),
            ]
        } else {
            Seq::empty()
        },
        None => Seq::empty(),
    };
    normal + suppressing
}

/// The occurrences that the first `upto` triggers give for one comment, in
/// the order of the triggers.
pub open spec fn spec_comment_triggers(
    index: u32,
    message: Seq<char>,
    extract: Regex,
    regs: Seq<CommentTriggerRegex>,
    upto: int,
    max_pset: u32,
) -> Seq<CommentTriggerView>
    decreases upto,
{
    if upto <= 0 {
        Seq::empty()
    } else {
        spec_comment_triggers(index, message, extract, regs, upto - 1, max_pset)
            + spec_definition_triggers(index, message, extract, regs[upto - 1], max_pset)
    }
}

/// Whether a comment is still to be looked at: it is newer than the start
/// line and its position is not below the number of comments seen before.
pub open spec fn comment_is_new(
    comment: GerritComment,
    index: int,
    last_seen_comment_id: i32,
    startline_ts: i64,
) -> bool {
    comment.timestamp > startline_ts && index >= last_seen_comment_id
}

/// The occurrences that the first `upto` comments of a thread give, in the
/// order of the comments.
pub open spec fn spec_thread_triggers(
    comments: Seq<GerritComment>,
    upto: int,
    extract: Regex,
    regs: Seq<CommentTriggerRegex>,
    last_seen_comment_id: i32,
    startline_ts: i64,
    max_pset: u32,
) -> Seq<CommentTriggerView>
    decreases upto,
{
    if upto <= 0 {
        Seq::empty()
    } else {
        let before = spec_thread_triggers(
            comments,
            upto - 1,
            extract,
            regs,
            last_seen_comment_id,
            startline_ts,
            max_pset,
        );
        if comment_is_new(comments[upto - 1], upto - 1, last_seen_comment_id, startline_ts) {
            before + spec_comment_triggers(
                (upto - 1) as u32,
                comments[upto - 1].message@,
                extract,
                regs,
                regs.len() as int,
                max_pset,
            )
        } else {
            before
        }
    }
}

/// Settles the patchset number of an occurrence from its captures.
pub fn settle_patchset(captures: CaptureMap, is_merge_notice: bool, max_pset: u32) -> (settled: (
    CaptureMap,
    u32,
))
    ensures
        (settled.0@, settled.1) == spec_settle_patchset(captures@, is_merge_notice, max_pset),
{
    let parsed = match captures.get("patchset") {
        Some(text) => parse_u32(text.as_str()),
        None => {
            let empty = String::new();
            parse_u32(empty.as_str())
        },
    };
    match parsed {
        Some(number) => (captures, number),
        None => {
            if is_merge_notice {
                let mut captures = captures;
                captures.insert("patchset".to_owned(), u64_to_string(max_pset as u64));
                (captures, max_pset)
            } else {
                (captures, 0)
            }
        },
    }
}

impl CommentTrigger {
    /// The occurrence of the trigger `name` in the comment at `index`, from
    /// the captures of the match.
    pub fn from_captures(
        index: u32,
        name: &str,
        captures: CaptureMap,
        is_merge_notice: bool,
        max_pset: u32,
        is_suppress: bool,
    ) -> (t: CommentTrigger)
        ensures
            t@ == spec_occurrence(index, name@, captures@, is_merge_notice, max_pset, is_suppress),
    {
        let (captures, patchset_id) = settle_patchset(captures, is_merge_notice, max_pset);
        CommentTrigger {
            comment_index: index,
            trigger_name: name.to_owned(),
            patchset_id,
            captures,
            is_suppress,
            is_suppressed: false,
        }
    }

    /// Whether the patchset of this occurrence could not be read as a
    /// number.
    pub fn patchset_unreadable(&self) -> (b: bool)
        ensures
            b == spec_patchset_unreadable(self@),
    {
        match self.captures.get("patchset") {
            Some(text) => parse_u32(text.as_str()).is_none(),
            None => {
                let empty = String::new();
                parse_u32(empty.as_str()).is_none()
            },
        }
    }
}

fn patchset_candidate(extract: &Regex, message: &str) -> (candidate: String)
    ensures
        candidate@ == spec_patchset_candidate(*extract, message@),
{
    match named_group(extract, message, "patchset") {
        Some(found) => safe_or_underscores(found.as_str()),
        None => String::new(),
    }
}

fn collect_captures(
    names: &Vec<Option<String>>,
    values_from: &Regex,
    message: &str,
    candidate: &str,
) -> (captures: CaptureMap)
    ensures
        captures@ == spec_captured(names.deep_view(), *values_from, message@, candidate@),
{
    let ghost all = names.deep_view();
    let mut captures = CaptureMap::new();
    captures.insert("patchset".to_owned(), candidate.to_owned());
    assert(all.take(0).len() == 0);
    let mut i: usize = 0;
    while i < names.len()
        invariant
            i <= names@.len(),
            all == names.deep_view(),
            all.len() == names@.len(),
            captures@ == spec_captured(all.take(i as int), *values_from, message@, candidate@),
        decreases names.len() - i,
    {
        assert(all.take(i + 1).drop_last() =~= all.take(i as int));
        assert(all.take(i + 1).last() == all[i as int]);
        assert(all[i as int] == names@[i as int].deep_view());
        match &names[i] {
            Some(name) => {
                match named_group(values_from, message, name.as_str()) {
                    Some(found) => {
                        captures.insert(name.clone(), safe_or_underscores(found.as_str()));
                    },
                    None => {},
                }
            },
            None => {},
        }
        i += 1;
    }
    assert(all.take(names@.len() as int) =~= all);
    captures
}

fn definition_triggers(
    index: u32,
    message: &str,
    candidate: &str,
    is_merge_notice: bool,
    tr: &CommentTriggerRegex,
    max_pset: u32,
    ghost_extract: Ghost<Regex>,
    out: &mut Vec<CommentTrigger>,
)
    requires
        candidate@ == spec_patchset_candidate(ghost_extract@, message@),
        is_merge_notice == merge_notice_prefix().is_prefix_of(message@),
    ensures
        trigger_views(final(out)@) == trigger_views(old(out)@) + spec_definition_triggers(
            index,
            message@,
            ghost_extract@,
            *tr,
            max_pset,
        ),
{
    let ghost before = trigger_views(out@);
    let ghost normal_part: Seq<CommentTriggerView>;
    if is_match(&tr.r, message) {
        let names = group_names(&tr.r);
        let captures = collect_captures(&names, &tr.r, message, candidate);
        let t = CommentTrigger::from_captures(
            index,
            tr.name.as_str(),
            captures,
            is_merge_notice,
            max_pset,
            false,
        );
        proof {
            normal_part = seq![t@];
        }
        out.push(t);
    } else {
        proof {
            normal_part = Seq::empty();
        }
    }
    assert(trigger_views(out@) =~= before + normal_part);
    let ghost middle = trigger_views(out@);
    let ghost suppress_part: Seq<CommentTriggerView>;
    match &tr.r_suppress {
        Some(rs) => {
            if is_match(rs, message) {
                let names = group_names(&tr.r);
                let captures = collect_captures(&names, rs, message, candidate);
                let t = CommentTrigger::from_captures(
                    index,
                    tr.name.as_str(),
                    captures,
                    is_merge_notice,
                    max_pset,
                    true,
                );
                proof {
                    suppress_part = seq![t@];
                }
                out.push(t);
            } else {
                proof {
                    suppress_part = Seq::empty();
                }
            }
        },
        None => {
            proof {
                suppress_part = Seq::empty();
            }
        },
    }
    assert(trigger_views(out@) =~= middle + suppress_part);
    assert(normal_part + suppress_part == spec_definition_triggers(
        index,
        message@,
        ghost_extract@,
        *tr,
        max_pset,
    ));
    assert(trigger_views(out@) =~= before + (normal_part + suppress_part));
}

/// Matches every new comment of a thread against every trigger and gives
/// the occurrences found, in the order of the comments and, within a
/// comment, of the triggers.  A comment is new if its timestamp is above
/// `startline_ts` and its position is not below `last_seen_comment_id`,
/// the number of comments that an earlier pass has seen (-1 or 0 for a
/// thread not seen before).
pub fn get_comment_triggers_from_comments(
    rtdt: &s5ciRuntimeData,
    last_seen_comment_id: i32,
    max_pset: u32,
    comments_vec: &Vec<GerritComment>,
    startline_ts: i64,
) -> (out: Vec<CommentTrigger>)
    requires
        comments_vec@.len() <= i32::MAX,
    ensures
        trigger_views(out@) == spec_thread_triggers(
            comments_vec@,
            comments_vec@.len() as int,
            rtdt.patchset_extract_regex,
            rtdt.trigger_regexes@,
            last_seen_comment_id,
            startline_ts,
            max_pset,
        ),
        forall|k: int|
            0 <= k < out@.len() ==> {
                &&& (#[trigger] out@[k]).comment_index < comments_vec@.len()
                &&& out@[k].comment_index >= last_seen_comment_id
                &&& comments_vec@[out@[k].comment_index as int].timestamp > startline_ts
            },
        last_seen_comment_id >= comments_vec@.len() ==> out@.len() == 0,
{
    proof {
        lemma_thread_triggers_are_new(
            comments_vec@,
            comments_vec@.len() as int,
            rtdt.patchset_extract_regex,
            rtdt.trigger_regexes@,
            last_seen_comment_id,
            startline_ts,
            max_pset,
        );
        if last_seen_comment_id >= comments_vec@.len() {
            lemma_seen_thread_gives_nothing(
                comments_vec@,
                comments_vec@.len() as int,
                rtdt.patchset_extract_regex,
                rtdt.trigger_regexes@,
                last_seen_comment_id,
                startline_ts,
                max_pset,
            );
        }
    }
    let mut out: Vec<CommentTrigger> = Vec::new();
    assert(trigger_views(out@) =~= Seq::<CommentTriggerView>::empty());
    let mut i: usize = 0;
    while i < comments_vec.len()
        invariant
            i <= comments_vec@.len(),
            comments_vec@.len() <= i32::MAX,
            trigger_views(out@) == spec_thread_triggers(
                comments_vec@,
                i as int,
                rtdt.patchset_extract_regex,
                rtdt.trigger_regexes@,
                last_seen_comment_id,
                startline_ts,
                max_pset,
            ),
        decreases comments_vec.len() - i,
    {
        let comment = &comments_vec[i];
        if comment.timestamp > startline_ts && (i as i64) >= (last_seen_comment_id as i64) {
            let message = comment.message.as_str();
            let candidate = patchset_candidate(&rtdt.patchset_extract_regex, message);
            let is_merge_notice = has_prefix(message, "Change has been successfully merged by ");
            let ghost before = trigger_views(out@);
            let mut k: usize = 0;
            assert(trigger_views(out@) =~= before + spec_comment_triggers(
                i as u32,
                message@,
                rtdt.patchset_extract_regex,
                rtdt.trigger_regexes@,
                0,
                max_pset,
            ));
            while k < rtdt.trigger_regexes.len()
                invariant
                    k <= rtdt.trigger_regexes@.len(),
                    i < comments_vec@.len() <= i32::MAX,
                    message@ == comments_vec@[i as int].message@,
                    candidate@ == spec_patchset_candidate(rtdt.patchset_extract_regex, message@),
                    is_merge_notice == merge_notice_prefix().is_prefix_of(message@),
                    trigger_views(out@) == before + spec_comment_triggers(
                        i as u32,
                        message@,
                        rtdt.patchset_extract_regex,
                        rtdt.trigger_regexes@,
                        k as int,
                        max_pset,
                    ),
                decreases rtdt.trigger_regexes.len() - k,
            {
                let ghost sofar = spec_comment_triggers(
                    i as u32,
                    message@,
                    rtdt.patchset_extract_regex,
                    rtdt.trigger_regexes@,
                    k as int,
                    max_pset,
                );
                definition_triggers(
                    i as u32,
                    message,
                    candidate.as_str(),
                    is_merge_notice,
                    &rtdt.trigger_regexes[k],
                    max_pset,
                    Ghost(rtdt.patchset_extract_regex),
                    &mut out,
                );
                assert(trigger_views(out@) =~= before + (sofar + spec_definition_triggers(
                    i as u32,
                    message@,
                    rtdt.patchset_extract_regex,
                    rtdt.trigger_regexes@[k as int],
                    max_pset,
                )));
                k += 1;
            }
        }
        i += 1;
    }
    assert forall|k: int| 0 <= k < out@.len() implies {
        &&& (#[trigger] out@[k]).comment_index < comments_vec@.len()
        &&& out@[k].comment_index >= last_seen_comment_id
        &&& comments_vec@[out@[k].comment_index as int].timestamp > startline_ts
    } by {
        assert(trigger_views(out@)[k] == out@[k]@);
    }
    assert(trigger_views(out@).len() == out@.len());
    out
}

/// The number to remember as seen once a thread has been looked through:
/// the number of its comments.
pub fn next_last_seen_comment_id(comments_vec: &Vec<GerritComment>) -> (id: i32)
    requires
        comments_vec@.len() <= i32::MAX,
    ensures
        id == comments_vec@.len(),
{
    comments_vec.len() as i32
}

impl CommentTrigger {
    /// A copy of this occurrence.
    pub fn duplicate(&self) -> (copy: CommentTrigger)
        ensures
            copy@ == self@,
    {
        CommentTrigger {
            comment_index: self.comment_index,
            trigger_name: self.trigger_name.clone(),
            patchset_id: self.patchset_id,
            captures: self.captures.duplicate(),
            is_suppress: self.is_suppress,
            is_suppressed: self.is_suppressed,
        }
    }
}

/// Every occurrence of a thread after suppression resolution.
pub open spec fn spec_resolve_all(ts: Seq<CommentTriggerView>) -> Seq<CommentTriggerView> {
    Seq::new(ts.len(), |i: int| spec_resolved(ts, i))
}

/// The highest number among the first `upto` patchsets; 0 if there is none.
pub open spec fn spec_max_patchset_number(psets: Seq<GerritPatchSet>, upto: int) -> u32
    decreases upto,
{
    if upto <= 0 {
        0
    } else {
        let before = spec_max_patchset_number(psets, upto - 1);
        if psets[upto - 1].number > before {
            psets[upto - 1].number
        } else {
            before
        }
    }
}

/// The highest patchset number of a change; 0 if it has no patchset.
pub fn max_patchset_number(psets: &Vec<GerritPatchSet>) -> (max: u32)
    ensures
        max == spec_max_patchset_number(psets@, psets@.len() as int),
{
    let mut max: u32 = 0;
    let mut i: usize = 0;
    while i < psets.len()
        invariant
            i <= psets@.len(),
            max == spec_max_patchset_number(psets@, i as int),
        decreases psets.len() - i,
    {
        if psets[i].number > max {
            max = psets[i].number;
        }
        i += 1;
    }
    max
}

/// Whether a patchset answers to the number `id`: it carries that number,
/// or its revision reads as that number in decimal.
pub open spec fn patchset_answers(pset: GerritPatchSet, id: u32) -> bool {
    pset.number == id || pset.revision@ == decimal(id as nat)
}

/// The last of the first `upto` patchsets that answers to `id`.
pub open spec fn spec_find_patchset(psets: Seq<GerritPatchSet>, id: u32, upto: int) -> Option<
    GerritPatchSet,
>
    decreases upto,
{
    if upto <= 0 {
        None
    } else if patchset_answers(psets[upto - 1], id) {
        Some(psets[upto - 1])
    } else {
        spec_find_patchset(psets, id, upto - 1)
    }
}

/// The patchset of a change that an occurrence speaks of.
pub fn find_patchset(psets: &Vec<GerritPatchSet>, id: u32) -> (found: Option<&GerritPatchSet>)
    ensures
        match found {
            Some(p) => Some(*p),
            None => None,
        } == spec_find_patchset(psets@, id, psets@.len() as int),
{
    let written = u64_to_string(id as u64);
    let mut i: usize = psets.len();
    while i > 0
        invariant
            i <= psets@.len(),
            written@ == decimal(id as nat),
            spec_find_patchset(psets@, id, psets@.len() as int) == spec_find_patchset(
                psets@,
                id,
                i as int,
            ),
        decreases i,
    {
        i -= 1;
        if psets[i].number == id || same_text(psets[i].revision.as_str(), written.as_str()) {
            return Some(&psets[i]);
        }
    }
    None
}

/// The patchsets of a change; none if it lists none.
pub open spec fn spec_patchsets(cs: &GerritChangeSet) -> Seq<GerritPatchSet> {
    match cs.patchSets {
        Some(psets) => psets@,
        None => Seq::empty(),
    }
}

/// The command template that stands under a trigger's name: the first of
/// that name, if there is one.
pub open spec fn spec_template_of(templates: Seq<(String, String)>, name: Seq<char>) -> Option<
    Seq<char>,
> {
    match spec_position_of(templates, name) {
        Some(p) => Some(templates[p].1@),
        None => None,
    }
}

/// What the command template of an occurrence is to be rendered with: the
/// patchset of the change that the occurrence speaks of, and its captures.
pub open spec fn spec_expansion_bindings(
    t: CommentTriggerView,
    psets: Seq<GerritPatchSet>,
) -> TemplateData {
    spec_bindings(spec_find_patchset(psets, t.patchset_id, psets.len() as int), t.captures)
}

/// An occurrence that may start a job, with the command template of its
/// trigger, if one stands under its name, and the values to render the
/// template with.
#[derive(Debug)]
pub struct Expansion {
    pub trigger: CommentTrigger,
    pub template: Option<String>,
    pub bindings: TemplateValue,
}

fn expand(trigger: CommentTrigger, templates: &Vec<(String, String)>, psets: &Vec<GerritPatchSet>) -> (e:
    Expansion)
    ensures
        e.trigger == trigger,
        e.template.deep_view() == spec_template_of(templates@, trigger@.trigger_name),
        e.bindings@ == spec_expansion_bindings(trigger@, psets@),
{
    let template = match position_of(templates, trigger.trigger_name.as_str()) {
        Some(p) => {
            proof {
                crate::s5ci_config::lemma_position_of(templates@, trigger.trigger_name@);
            }
            Some(templates[p].1.clone())
        },
        None => None,
    };
    let patchset = find_patchset(psets, trigger.patchset_id);
    let bindings = bindings(patchset, &trigger.captures);
    Expansion { trigger, template, bindings }
}

/// What one pass over a change has found.
#[derive(Debug)]
pub struct ChangeOutcome {
    /// The number of the change.
    pub changeset_id: u32,
    /// Every occurrence found in the new comments, suppression resolved.
    pub occurrences: Vec<CommentTrigger>,
    /// The occurrences that may start a job, in order, each with its
    /// command template and what to render it with.
    pub expansions: Vec<Expansion>,
    /// The number of comments to remember as seen.
    pub last_seen_comment_id: i32,
}

/// The time below which comments are ignored: one second before the
/// start of the polled window, moved later by the configured delay.
pub open spec fn spec_startline(after_when: i64, delay_sec: Option<u32>) -> int {
    after_when - 1 + match delay_sec {
        Some(d) => d as int,
        None => 0,
    }
}

/// Whether the expansions are those of the runnable occurrences, in order.
pub open spec fn expansions_match(
    expansions: Seq<Expansion>,
    runnable: Seq<CommentTriggerView>,
    templates: Seq<(String, String)>,
    psets: Seq<GerritPatchSet>,
) -> bool {
    &&& expansions.len() == runnable.len()
    &&& forall|k: int|
        0 <= k < expansions.len() ==> {
            &&& (#[trigger] expansions[k]).trigger@ == runnable[k]
            &&& expansions[k].template.deep_view() == spec_template_of(
                templates,
                runnable[k].trigger_name,
            )
            &&& expansions[k].bindings@ == spec_expansion_bindings(runnable[k], psets)
        }
}

/// Looks through the new comments of one change and says which jobs they
/// ask for.
///
/// `after_when` is the start of the polled window and
/// `last_seen_comment_id` the number of comments of this change that an
/// earlier pass has seen, both in seconds and counts as the review server
/// gives them.  Nothing is looked at, and `None` returned, where the window
/// has no start, the change lists no comments, or it has no number.
/// Otherwise every trigger is matched against every new comment,
/// suppression is resolved over the occurrences found, those that may not
/// start a job are dropped, and each that is left is given the command
/// template of its trigger and the values to render it with.
pub fn process_gerrit_change(
    config: &s5ciConfig,
    rtdt: &s5ciRuntimeData,
    cs: &GerritChangeSet,
    last_seen_comment_id: i32,
    after_when: Option<i64>,
) -> (outcome: Option<ChangeOutcome>)
    requires
        after_when matches Some(start) ==> i64::MIN <= spec_startline(
            start,
            config.default_regex_trigger_delay_sec,
        ) <= i64::MAX,
        cs.comments matches Some(comments) ==> comments@.len() <= i32::MAX,
    ensures
        outcome.is_none() == (after_when.is_none() || cs.comments.is_none()
            || cs.number.is_none()),
        outcome matches Some(found) ==> {
            let comments = cs.comments->Some_0@;
            let psets = spec_patchsets(cs);
            let all = spec_thread_triggers(
                comments,
                comments.len() as int,
                rtdt.patchset_extract_regex,
                rtdt.trigger_regexes@,
                last_seen_comment_id,
                spec_startline(
                    after_when->Some_0,
                    config.default_regex_trigger_delay_sec,
                ) as i64,
                spec_max_patchset_number(psets, psets.len() as int),
            );
            let resolved = spec_resolve_all(all);
            let runnable = resolved.filter(runnable_among(spec_triggers(config), cs.project));
            &&& found.changeset_id == cs.number->Some_0
            &&& found.last_seen_comment_id == comments.len()
            &&& trigger_views(found.occurrences@) == resolved
            &&& expansions_match(
                found.expansions@,
                runnable,
                rtdt.trigger_command_templates@,
                psets,
            )
        },
{
    let start = match after_when {
        Some(start) => start,
        None => {
            return None;
        },
    };
    let comments = match &cs.comments {
        Some(comments) => comments,
        None => {
            return None;
        },
    };
    let changeset_id = match cs.number {
        Some(number) => number,
        None => {
            return None;
        },
    };
    let delay: i64 = match config.default_regex_trigger_delay_sec {
        Some(d) => d as i64,
        None => 0,
    };
    let startline_ts: i64 = if delay > 0 {
        (start + (delay - 1))
    } else {
        start - 1
    };
    let no_patchsets: Vec<GerritPatchSet> = Vec::new();
    let psets = match &cs.patchSets {
        Some(psets) => psets,
        None => &no_patchsets,
    };
    let max_pset = max_patchset_number(psets);
    let all = get_comment_triggers_from_comments(
        rtdt,
        last_seen_comment_id,
        max_pset,
        comments,
        startline_ts,
    );
    let ghost all_views = trigger_views(all@);
    let resolved = resolve_suppressions(all);
    assert(trigger_views(resolved@) =~= spec_resolve_all(all_views));
    let mut occurrences: Vec<CommentTrigger> = Vec::new();
    let mut i: usize = 0;
    while i < resolved.len()
        invariant
            i <= resolved@.len(),
            occurrences@.len() == i,
            forall|j: int| 0 <= j < i ==> (#[trigger] occurrences@[j])@ == resolved@[j]@,
        decreases resolved.len() - i,
    {
        occurrences.push(resolved[i].duplicate());
        i += 1;
    }
    assert(trigger_views(occurrences@) =~= trigger_views(resolved@));
    let no_definitions: Vec<(String, s5GerritTrigger)> = Vec::new();
    let definitions = match &config.triggers {
        Some(definitions) => definitions,
        None => &no_definitions,
    };
    let ghost runnable_views = trigger_views(resolved@).filter(
        runnable_among(definitions@, cs.project),
    );
    let runnable = filter_triggers(resolved, definitions, &cs.project);
    let ghost runnable_all = runnable@;
    let mut stack = reversed(runnable);
    let mut expansions: Vec<Expansion> = Vec::new();
    let ghost n = runnable_all.len() as int;
    while stack.len() > 0
        invariant
            n == runnable_all.len(),
            runnable_views == trigger_views(runnable_all),
            psets@ == spec_patchsets(cs),
            stack@.len() <= n,
            forall|k: int|
                0 <= k < stack@.len() ==> #[trigger] stack@[k] == runnable_all[n - 1 - k],
            expansions_match(
                expansions@,
                runnable_views.take(n - stack@.len()),
                rtdt.trigger_command_templates@,
                psets@,
            ),
        decreases stack.len(),
    {
        let ghost at = n - stack@.len();
        let ghost before = expansions@;
        let trigger = stack.pop().unwrap();
        assert(trigger == runnable_all[at]);
        assert(runnable_views[at] == trigger@);
        let expansion = expand(trigger, &rtdt.trigger_command_templates, psets);
        expansions.push(expansion);
        assert forall|k: int| 0 <= k < expansions@.len() implies {
            &&& (#[trigger] expansions@[k]).trigger@ == runnable_views.take(at + 1)[k]
            &&& expansions@[k].template.deep_view() == spec_template_of(
                rtdt.trigger_command_templates@,
                runnable_views.take(at + 1)[k].trigger_name,
            )
            &&& expansions@[k].bindings@ == spec_expansion_bindings(
                runnable_views.take(at + 1)[k],
                psets@,
            )
        } by {
            if k < at {
                assert(expansions@[k] == before[k]);
                assert(runnable_views.take(at)[k] == runnable_views.take(at + 1)[k]);
            }
        }
    }
    assert(runnable_views.take(n) =~= runnable_views);
    Some(
        ChangeOutcome {
            changeset_id,
            occurrences,
            expansions,
            last_seen_comment_id: comments.len() as i32,
        },
    )
}

/// Every occurrence found in a comment carries the position of that
/// comment.
pub proof fn lemma_comment_triggers_index(
    index: u32,
    message: Seq<char>,
    extract: Regex,
    regs: Seq<CommentTriggerRegex>,
    upto: int,
    max_pset: u32,
)
    requires
        0 <= upto <= regs.len(),
    ensures
        forall|k: int|
            0 <= k < spec_comment_triggers(index, message, extract, regs, upto, max_pset).len()
                ==> (#[trigger] spec_comment_triggers(
                index,
                message,
                extract,
                regs,
                upto,
                max_pset,
            )[k]).comment_index == index,
    decreases upto,
{
    if upto > 0 {
        lemma_comment_triggers_index(index, message, extract, regs, upto - 1, max_pset);
        let before = spec_comment_triggers(index, message, extract, regs, upto - 1, max_pset);
        let here = spec_definition_triggers(index, message, extract, regs[upto - 1], max_pset);
        let both = spec_comment_triggers(index, message, extract, regs, upto, max_pset);
        assert(both == before + here);
        assert forall|k: int| 0 <= k < both.len() implies (#[trigger] both[k]).comment_index
            == index by {
            if k < before.len() {
                assert(both[k] == before[k]);
            } else {
                assert(both[k] == here[k - before.len()]);
            }
        }
    }
}

/// Extraction looks at new comments only: every occurrence found comes
/// from a comment whose position is not below the number of comments seen
/// before and whose timestamp is above the start line.
pub proof fn lemma_thread_triggers_are_new(
    comments: Seq<GerritComment>,
    upto: int,
    extract: Regex,
    regs: Seq<CommentTriggerRegex>,
    last_seen_comment_id: i32,
    startline_ts: i64,
    max_pset: u32,
)
    requires
        0 <= upto <= comments.len(),
        upto <= u32::MAX,
    ensures
        forall|k: int|
            0 <= k < spec_thread_triggers(
                comments,
                upto,
                extract,
                regs,
                last_seen_comment_id,
                startline_ts,
                max_pset,
            ).len() ==> {
                let t = #[trigger] spec_thread_triggers(
                    comments,
                    upto,
                    extract,
                    regs,
                    last_seen_comment_id,
                    startline_ts,
                    max_pset,
                )[k];
                &&& t.comment_index < upto
                &&& t.comment_index >= last_seen_comment_id
                &&& comments[t.comment_index as int].timestamp > startline_ts
            },
    decreases upto,
{
    if upto > 0 {
        lemma_thread_triggers_are_new(
            comments,
            upto - 1,
            extract,
            regs,
            last_seen_comment_id,
            startline_ts,
            max_pset,
        );
        lemma_comment_triggers_index(
            (upto - 1) as u32,
            comments[upto - 1].message@,
            extract,
            regs,
            regs.len() as int,
            max_pset,
        );
        let before = spec_thread_triggers(
            comments,
            upto - 1,
            extract,
            regs,
            last_seen_comment_id,
            startline_ts,
            max_pset,
        );
        let here = spec_comment_triggers(
            (upto - 1) as u32,
            comments[upto - 1].message@,
            extract,
            regs,
            regs.len() as int,
            max_pset,
        );
        let both = spec_thread_triggers(
            comments,
            upto,
            extract,
            regs,
            last_seen_comment_id,
            startline_ts,
            max_pset,
        );
        assert forall|k: int| 0 <= k < both.len() implies {
            let t = #[trigger] both[k];
            &&& t.comment_index < upto
            &&& t.comment_index >= last_seen_comment_id
            &&& comments[t.comment_index as int].timestamp > startline_ts
        } by {
            if k < before.len() {
                assert(both[k] == before[k]);
            } else {
                assert(both == before + here);
                assert(both[k] == here[k - before.len()]);
            }
        }
    }
}

/// A thread of which every comment has been seen gives no occurrence.
pub proof fn lemma_seen_thread_gives_nothing(
    comments: Seq<GerritComment>,
    upto: int,
    extract: Regex,
    regs: Seq<CommentTriggerRegex>,
    last_seen_comment_id: i32,
    startline_ts: i64,
    max_pset: u32,
)
    requires
        0 <= upto <= last_seen_comment_id,
    ensures
        spec_thread_triggers(
            comments,
            upto,
            extract,
            regs,
            last_seen_comment_id,
            startline_ts,
            max_pset,
        ).len() == 0,
    decreases upto,
{
    if upto > 0 {
        lemma_seen_thread_gives_nothing(
            comments,
            upto - 1,
            extract,
            regs,
            last_seen_comment_id,
            startline_ts,
            max_pset,
        );
    }
}

} // verus!
