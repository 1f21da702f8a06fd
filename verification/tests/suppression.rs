use s5ci::captures::CaptureMap;
use s5ci::comment_triggers::{filter_triggers, resolve_suppressions, CommentTrigger};
use s5ci::s5ci_config::{s5GerritTrigger, s5TriggerAction};

fn occurrence(index: u32, name: &str, patchset: u32, is_suppress: bool) -> CommentTrigger {
    let mut captures = CaptureMap::new();
    captures.insert("patchset".to_string(), patchset.to_string());
    CommentTrigger {
        comment_index: index,
        trigger_name: name.to_string(),
        patchset_id: patchset,
        captures,
        is_suppress,
        is_suppressed: false,
    }
}

fn command_trigger(project: Option<&str>) -> s5GerritTrigger {
    s5GerritTrigger {
        project: project.map(|p| p.to_string()),
        branch: None,
        regex: "^retest$".to_string(),
        suppress_regex: Some("^cancel$".to_string()),
        action: s5TriggerAction::command("echo".to_string()),
    }
}

fn flags(triggers: &Vec<CommentTrigger>) -> Vec<(u32, bool, bool)> {
    triggers.iter().map(|t| (t.comment_index, t.is_suppress, t.is_suppressed)).collect()
}

#[test]
fn later_suppressing_comment_cancels_the_earlier_trigger() {
    let triggers = vec![occurrence(2, "retest", 1, false), occurrence(5, "retest", 1, true)];
    let resolved = resolve_suppressions(triggers);
    assert_eq!(flags(&resolved), vec![(2, false, true), (5, true, false)]);
    let definitions = vec![("retest".to_string(), command_trigger(None))];
    let kept = filter_triggers(resolved, &definitions, &None);
    assert!(kept.is_empty());
}

#[test]
fn only_the_nearest_earlier_trigger_is_suppressed() {
    let triggers = vec![
        occurrence(1, "retest", 1, false),
        occurrence(2, "retest", 1, false),
        occurrence(4, "retest", 1, true),
    ];
    let resolved = resolve_suppressions(triggers);
    assert_eq!(flags(&resolved), vec![(1, false, false), (2, false, true), (4, true, false)]);
    let definitions = vec![("retest".to_string(), command_trigger(None))];
    let kept = filter_triggers(resolved, &definitions, &None);
    assert_eq!(flags(&kept), vec![(1, false, false)]);
}

#[test]
fn suppression_goes_by_name_and_patchset() {
    let triggers = vec![
        occurrence(0, "retest", 1, false),
        occurrence(1, "build", 2, false),
        occurrence(2, "retest", 2, false),
        occurrence(3, "retest", 1, true),
        occurrence(4, "build", 1, true),
    ];
    let resolved = resolve_suppressions(triggers);
    assert_eq!(
        flags(&resolved),
        vec![
            (0, false, true),
            (1, false, false),
            (2, false, false),
            (3, true, false),
            (4, true, false)
        ]
    );
}

#[test]
fn a_trigger_after_the_suppressing_comment_runs() {
    let triggers = vec![
        occurrence(0, "retest", 1, false),
        occurrence(1, "retest", 1, true),
        occurrence(2, "retest", 1, false),
    ];
    let resolved = resolve_suppressions(triggers);
    assert_eq!(flags(&resolved), vec![(0, false, true), (1, true, false), (2, false, false)]);
}

#[test]
fn two_suppressing_comments_cancel_one_trigger_only() {
    let triggers = vec![
        occurrence(0, "retest", 1, false),
        occurrence(1, "retest", 1, false),
        occurrence(2, "retest", 1, true),
        occurrence(3, "retest", 1, true),
    ];
    let resolved = resolve_suppressions(triggers);
    assert_eq!(
        flags(&resolved),
        vec![(0, false, false), (1, false, true), (2, true, false), (3, true, false)]
    );
}

#[test]
fn resolving_nothing_gives_nothing() {
    assert!(resolve_suppressions(Vec::new()).is_empty());
}

#[test]
fn filter_drops_other_projects_events_and_unknown_triggers() {
    let definitions = vec![
        ("retest".to_string(), command_trigger(Some("vpp"))),
        (
            "notify".to_string(),
            s5GerritTrigger {
                project: None,
                branch: None,
                regex: "^notify$".to_string(),
                suppress_regex: None,
                action: s5TriggerAction::event("notified".to_string()),
            },
        ),
        ("any".to_string(), command_trigger(None)),
    ];
    let triggers = || {
        vec![
            occurrence(0, "retest", 1, false),
            occurrence(1, "notify", 1, false),
            occurrence(2, "any", 1, false),
            occurrence(3, "gone", 1, false),
        ]
    };
    let vpp = filter_triggers(triggers(), &definitions, &Some("vpp".to_string()));
    assert_eq!(flags(&vpp), vec![(0, false, false), (2, false, false)]);
    let other = filter_triggers(triggers(), &definitions, &Some("csit".to_string()));
    assert_eq!(flags(&other), vec![(2, false, false)]);
    let none = filter_triggers(triggers(), &definitions, &None);
    assert_eq!(flags(&none), vec![(2, false, false)]);
}

#[test]
fn capture_map_replaces_and_finds() {
    let mut captures = CaptureMap::new();
    assert_eq!(captures.len(), 0);
    assert!(captures.get("patchset").is_none());
    captures.insert("patchset".to_string(), "".to_string());
    captures.insert("branch".to_string(), "master".to_string());
    captures.insert("patchset".to_string(), "7".to_string());
    assert_eq!(captures.len(), 2);
    assert_eq!(captures.get("patchset").map(|s| s.as_str()), Some("7"));
    assert_eq!(captures.get("branch").map(|s| s.as_str()), Some("master"));
    assert!(captures.get("other").is_none());
    let first = captures.entry(0);
    assert_eq!((first.0.as_str(), first.1.as_str()), ("patchset", "7"));
    let copy = captures.duplicate();
    assert_eq!(copy.get("patchset").map(|s| s.as_str()), Some("7"));
    assert_eq!(copy.len(), 2);
}
