use serde_json::Value;
use worktrunk::answer::Answer;
use worktrunk::clean::{
    action_for, count_picked, reason_for, Classification, CleanEntry, CleanOptions,
};
use worktrunk::clean_plan::{plan_cleanup, PlanStep, Worktree};
use worktrunk::clean_report::{clean_document, emit_json};
use worktrunk::cleanup::{
    clean_one, handle_clean, plan_text, CleanAction, CleanEnd, CleanFailure, CleanStep, CleanWay, Line,
};
use worktrunk::fault::Fault;
use worktrunk::removal::BranchDeletionMode;
use worktrunk::survey::{classify, SurveyAction, SurveyStep, WorktreeFacts};

/// An entry whose path is told by its text.
fn entry(path: &str, branch: Option<&str>, classification: Classification) -> CleanEntry {
    let known = ["/r", "/r/here", "/r/usb", "/r/gone", "/r/wip", "/r/new", "/r/bisect", "/r/old"];
    let path_id = known.iter().position(|p| *p == path).unwrap_or(100 + path.len());
    CleanEntry {
        path: path.to_string(),
        path_id,
        branch: branch.map(|b| b.to_string()),
        classification,
    }
}

fn merged(branch: &str) -> Classification {
    Classification::Merged { branch: branch.to_string() }
}

/// One worktree of every sort.
fn worktrees() -> Vec<CleanEntry> {
    vec![
        entry("/r", Some("main"), Classification::Primary),
        entry("/r/here", Some("here"), Classification::Current),
        entry("/r/usb", Some("usb"), Classification::Locked { reason: "on usb".to_string() }),
        entry("/r/gone", Some("gone"), Classification::Prunable),
        entry("/r/wip", Some("wip"), Classification::Dirty),
        entry("/r/new", Some("new"), Classification::NotMerged { branch: "new".to_string() }),
        entry("/r/bisect", None, Classification::DetachedHead),
        entry("/r/old", Some("old"), merged("old")),
    ]
}

fn options(yes: bool, dry_run: bool, force: bool, json: bool) -> CleanOptions {
    CleanOptions { target_branch: None, yes, dry_run, force, json }
}

fn info(text: &str) -> Line {
    Line::Info(text.to_string())
}

fn plain(text: &str) -> Line {
    Line::Plain(text.to_string())
}

fn failed(message: &str) -> Answer {
    Answer::Failed(Fault { message: message.to_string(), causes: vec!["cause".to_string()] })
}

/// Cleans up with the given answers; returns the actions, the lines and the end.
/// Each run stands before a worktree that may go.
fn clean(
    opts: &CleanOptions,
    entries: Vec<CleanEntry>,
    answers: Vec<Answer>,
) -> (Vec<CleanAction>, Vec<Line>, CleanEnd) {
    let mut actions = vec![];
    let mut lines = vec![];
    let mut answers = answers.into_iter();
    let untouchable: Vec<usize> = (0..entries.len())
        .filter(|i| !entries[*i].classification.is_forceable())
        .collect();
    let CleanStep { lines: first, mut to } =
        handle_clean(opts, "main".to_string(), entries);
    lines.extend(first);
    loop {
        match to {
            CleanWay::Done(end) => return (actions, lines, end),
            CleanWay::Next(run) => {
                assert!(!untouchable.contains(&run.position()));
                actions.push(run.action());
                let step = run.resume(answers.next().expect("an answer"));
                lines.extend(step.lines);
                to = step.to;
            }
        }
    }
}

#[test]
fn safe_and_forceable_worktrees() {
    let safe: Vec<bool> =
        worktrees().iter().map(|e| e.classification.is_safe_to_clean()).collect();
    assert_eq!(safe, vec![false, false, false, true, false, false, false, true]);
    let forceable: Vec<bool> =
        worktrees().iter().map(|e| e.classification.is_forceable()).collect();
    assert_eq!(forceable, vec![false, false, true, true, true, true, true, true]);
    assert_eq!(count_picked(&worktrees(), false), 2);
    assert_eq!(count_picked(&worktrees(), true), 6);
}

#[test]
fn labels_actions_and_reasons() {
    let labels: Vec<&str> = worktrees().iter().map(|e| e.classification.label()).collect();
    assert_eq!(
        labels,
        vec![
            "primary", "current", "locked", "prunable", "dirty", "not-merged", "detached",
            "merged"
        ]
    );
    let reasons: Vec<String> = worktrees().iter().map(|e| reason_for(&e.classification)).collect();
    assert_eq!(
        reasons,
        vec![
            "primary worktree",
            "current worktree",
            "locked: on usb",
            "directory missing on disk",
            "uncommitted changes",
            "branch new has commits not on target",
            "detached HEAD",
            "branch old merged into target",
        ]
    );
    assert_eq!(reason_for(&Classification::Locked { reason: String::new() }), "locked");
    assert_eq!(action_for(&Classification::Dirty, false), "skip");
    assert_eq!(action_for(&Classification::Dirty, true), "clean");
    assert_eq!(action_for(&Classification::Primary, true), "skip");
    assert_eq!(action_for(&merged("old"), false), "clean");
}

fn facts() -> WorktreeFacts {
    WorktreeFacts {
        current: false,
        primary: false,
        locked: None,
        prunable: false,
        exists: true,
        detached: false,
        branch: Some("b".to_string()),
    }
}

fn settled(facts: WorktreeFacts) -> Classification {
    match classify(&facts, "main") {
        SurveyStep::Done(classification) => classification,
        next => panic!("{next:?}"),
    }
}

#[test]
fn worktrees_that_are_settled_by_the_list() {
    let all = WorktreeFacts {
        current: true,
        primary: true,
        locked: Some("why".to_string()),
        prunable: true,
        exists: false,
        detached: true,
        branch: None,
    };
    assert_eq!(settled(all.clone()), Classification::Current);
    let all = WorktreeFacts { current: false, ..all };
    assert_eq!(settled(all.clone()), Classification::Primary);
    let all = WorktreeFacts { primary: false, ..all };
    assert_eq!(settled(all.clone()), Classification::Locked { reason: "why".to_string() });
    let all = WorktreeFacts { locked: None, ..all };
    assert_eq!(settled(all.clone()), Classification::Prunable);
    let all = WorktreeFacts { prunable: false, ..all };
    assert_eq!(settled(all.clone()), Classification::Prunable);
    let all = WorktreeFacts { exists: true, ..all };
    assert_eq!(settled(all.clone()), Classification::DetachedHead);
    let all = WorktreeFacts { detached: false, ..all };
    assert_eq!(settled(all), Classification::DetachedHead);
}

#[test]
fn worktrees_that_are_looked_into() {
    let survey = |status: Answer, ancestry: Answer| {
        let run = match classify(&facts(), "main") {
            SurveyStep::Next(run) => run,
            done => panic!("{done:?}"),
        };
        match run.action() {
            SurveyAction::Output(command) => {
                assert_eq!(command.args, vec!["status", "--porcelain"])
            }
            other => panic!("{other:?}"),
        }
        let run = match run.resume(&status) {
            SurveyStep::Next(run) => run,
            SurveyStep::Done(classification) => return classification,
        };
        match run.action() {
            SurveyAction::Check(command) => {
                assert_eq!(command.args, vec!["merge-base", "--is-ancestor", "b", "main"])
            }
            other => panic!("{other:?}"),
        }
        match run.resume(&ancestry) {
            SurveyStep::Done(classification) => classification,
            next => panic!("{next:?}"),
        }
    };
    let text = |s: &str| Answer::Text(s.to_string());
    let not_merged = Classification::NotMerged { branch: "b".to_string() };
    assert_eq!(survey(text(" M f\n"), Answer::Yes), Classification::Dirty);
    assert_eq!(survey(text("\n"), Answer::Yes), merged("b"));
    assert_eq!(survey(text(""), Answer::No), not_merged);
    assert_eq!(survey(failed("status"), Answer::Yes), merged("b"));
    assert_eq!(survey(text(""), failed("ancestry")), not_merged);
}

#[test]
fn every_worktree_is_classified_in_order() {
    let worktree = |path: &str, facts: WorktreeFacts| Worktree {
        path: path.to_string(),
        path_id: entry(path, None, Classification::Dirty).path_id,
        facts,
    };
    let worktrees = vec![
        worktree("/r", WorktreeFacts { current: true, ..facts() }),
        worktree("/r/a", facts()),
        worktree("/r/gone", WorktreeFacts { exists: false, ..facts() }),
        worktree("/r/b", WorktreeFacts { branch: Some("c".to_string()), ..facts() }),
    ];
    let mut asked = vec![];
    let mut step = plan_cleanup("main".to_string(), worktrees);
    let entries = loop {
        match step {
            PlanStep::Done(entries) => break entries,
            PlanStep::Next(run) => {
                let answer = match (run.position(), run.action()) {
                    (1, SurveyAction::Output(_)) => Answer::Text(String::new()),
                    (1, SurveyAction::Check(_)) => Answer::Yes,
                    (3, SurveyAction::Output(_)) => Answer::Text("?? f".to_string()),
                    other => panic!("{other:?}"),
                };
                asked.push(run.position());
                step = run.resume(&answer);
            }
        }
    };
    assert_eq!(asked, vec![1, 1, 3]);
    assert_eq!(
        entries,
        vec![
            entry("/r", Some("b"), Classification::Current),
            entry("/r/a", Some("b"), merged("b")),
            entry("/r/gone", Some("b"), Classification::Prunable),
            entry("/r/b", Some("c"), Classification::Dirty),
        ]
    );
    assert_eq!(
        plan_cleanup("main".to_string(), vec![]),
        PlanStep::Done(vec![])
    );
}

#[test]
fn the_plan_in_words() {
    assert_eq!(
        plan_text(&worktrees(), false),
        vec![
            info("wt clean — plan:"),
            plain("  [skip] /r — primary (main)"),
            plain("  [skip] /r/here — current (here)"),
            plain("  [skip] /r/usb — locked (usb)"),
            plain("  [clean] /r/gone — prunable (gone)"),
            plain("  [skip] /r/wip — dirty (wip)"),
            plain("  [skip] /r/new — not-merged (new)"),
            plain("  [skip] /r/bisect — detached ((detached))"),
            plain("  [clean] /r/old — merged (old)"),
        ]
    );
}

#[test]
fn nothing_to_clean_is_said() {
    let entries = vec![entry("/r", Some("main"), Classification::Primary)];
    let (actions, lines, end) = clean(&options(true, false, true, false), entries, vec![]);
    assert_eq!(actions, vec![]);
    assert_eq!(lines[lines.len() - 1], info("Nothing to clean."));
    assert_eq!(end.complaint(), None);
}

#[test]
fn a_dry_run_removes_nothing() {
    let (actions, lines, end) = clean(&options(true, true, false, false), worktrees(), vec![]);
    assert_eq!(actions, vec![]);
    assert_eq!(
        lines[lines.len() - 1],
        info("Dry run — would clean 2 worktree(s). Re-run without --dry-run to apply.")
    );
    assert_eq!(end.failures, vec![]);
}

#[test]
fn without_a_confirmation_nothing_is_removed() {
    let (actions, lines, end) = clean(&options(false, false, true, false), worktrees(), vec![]);
    assert_eq!(actions, vec![]);
    assert_eq!(
        lines[lines.len() - 1],
        info("Would clean 6 worktree(s). Re-run with --yes to confirm.")
    );
    assert_eq!(end.complaint(), None);
}

#[test]
fn a_confirmed_cleanup_takes_each_in_turn() {
    let (actions, lines, end) = clean(
        &options(true, false, false, false),
        worktrees(),
        vec![Answer::Yes, Answer::Yes],
    );
    assert_eq!(actions.len(), 2);
    match &actions[0] {
        CleanAction::Prune(command) => assert_eq!(command.args, vec!["worktree", "prune"]),
        other => panic!("{other:?}"),
    }
    assert_eq!(
        actions[1],
        CleanAction::Remove {
            path: "/r/old".to_string(),
            branch: Some("old".to_string()),
            mode: BranchDeletionMode::SafeDelete,
            target_branch: "main".to_string(),
            force_worktree: false,
        }
    );
    assert_eq!(
        lines[9..],
        [info("Cleaned /r/gone (prunable)"), info("Cleaned /r/old (merged)")]
    );
    assert_eq!(end.complaint(), None);
    assert_eq!(emit_json(&end), None);
}

#[test]
fn a_forced_cleanup_goes_on_after_a_failure() {
    let answers = vec![
        failed("locked"),
        failed("prune"),
        Answer::Yes,
        Answer::Yes,
        Answer::Yes,
        Answer::Yes,
    ];
    let (actions, lines, end) = clean(&options(true, false, true, false), worktrees(), answers);
    assert_eq!(actions.len(), 6);
    assert_eq!(
        actions[4],
        CleanAction::Remove {
            path: "/r/bisect".to_string(),
            branch: None,
            mode: BranchDeletionMode::ForceDelete,
            target_branch: "main".to_string(),
            force_worktree: true,
        }
    );
    assert_eq!(lines[9], info("Failed to clean /r/usb (locked): locked"));
    assert_eq!(
        lines[10],
        info("Failed to clean /r/gone (prunable): git worktree prune failed")
    );
    assert_eq!(lines[11], info("Cleaned /r/wip (dirty)"));
    assert_eq!(
        end.failures,
        vec![
            CleanFailure { path_id: 2, error: "locked".to_string() },
            CleanFailure { path_id: 3, error: "git worktree prune failed".to_string() },
        ]
    );
    assert_eq!(
        end.complaint(),
        Some("wt clean: 2 worktree(s) failed to clean".to_string())
    );
}

fn report(entries: Vec<CleanEntry>, extra: &CleanOptions, answers: Vec<Answer>) -> Value {
    let (_, lines, end) = clean(extra, entries, answers);
    assert_eq!(lines, vec![]);
    let text = emit_json(&end).unwrap();
    serde_json::from_str(&text).unwrap()
}

#[test]
fn test_clean_json_schema_minimal_repo() {
    let entries = vec![
        entry("/r", Some("main"), Classification::Current),
        entry("/r.feature", Some("feature"), Classification::NotMerged {
            branch: "feature".to_string(),
        }),
    ];
    let json = report(entries, &options(false, true, false, true), vec![]);
    assert!(json.is_object(), "top-level must be object: {json}");
    assert!(json.get("worktrees").is_some(), "missing worktrees key");
    assert!(json.get("summary").is_some(), "missing summary key");
    let worktrees = json["worktrees"].as_array().expect("worktrees array");
    assert!(!worktrees.is_empty(), "expected at least the primary worktree");
    for entry in worktrees {
        for key in ["path", "branch", "classification", "action", "reason"] {
            assert!(entry.get(key).is_some(), "worktree entry missing {key}: {entry}");
        }
        assert!(entry["path"].is_string(), "path must be string: {entry}");
        assert!(
            entry["branch"].is_string() || entry["branch"].is_null(),
            "branch must be string or null: {entry}"
        );
        assert!(
            ["clean", "skip"].contains(&entry["action"].as_str().unwrap_or("")),
            "action must be clean|skip: {entry}"
        );
    }
    let summary = &json["summary"];
    for key in ["total", "to_clean", "skipped", "by_classification"] {
        assert!(summary.get(key).is_some(), "summary missing {key}: {summary}");
    }
    let total = summary["total"].as_u64().expect("total u64");
    let to_clean = summary["to_clean"].as_u64().expect("to_clean u64");
    let skipped = summary["skipped"].as_u64().expect("skipped u64");
    assert_eq!(total, to_clean + skipped);
    assert_eq!(total as usize, worktrees.len(), "summary.total must match worktrees.len()");
    let by_class = summary["by_classification"].as_object().expect("by_classification object");
    let class_total: u64 =
        by_class.values().map(|v| v.as_u64().expect("class count")).sum();
    assert_eq!(class_total, total, "by_classification counts must sum to total");
}

#[test]
fn test_clean_json_marks_current_worktree() {
    let here = settled(WorktreeFacts { current: true, primary: true, ..facts() });
    let entries = vec![entry("/r", Some("main"), here), entry("/r.b", Some("b"), merged("b"))];
    let json = report(entries, &options(false, true, false, true), vec![]);
    let entries = json["worktrees"].as_array().unwrap();
    let current_count = entries.iter().filter(|e| e["classification"] == "current").count();
    assert_eq!(current_count, 1, "exactly one entry should be `current`");
}

#[test]
fn test_clean_json_dry_run_is_idempotent() {
    let a = report(worktrees(), &options(false, true, false, true), vec![]);
    let b = report(worktrees(), &options(false, true, false, true), vec![]);
    assert_eq!(a, b, "dry-run output drifted between two invocations");
}

#[test]
fn the_tally_counts_every_worktree_once() {
    let mut entries = worktrees();
    entries.extend(worktrees());
    entries.push(entry("/r/z", Some("z"), merged("z")));
    let json = report(entries, &options(false, false, false, true), vec![]);
    let by_class = json["summary"]["by_classification"].as_object().unwrap();
    assert_eq!(by_class.len(), 8);
    assert_eq!(by_class["merged"].as_u64(), Some(3));
    assert_eq!(by_class["dirty"].as_u64(), Some(2));
    let sum: u64 = by_class.values().map(|v| v.as_u64().unwrap()).sum();
    assert_eq!(json["summary"]["total"].as_u64(), Some(sum));
    assert_eq!(json["summary"]["to_clean"].as_u64(), Some(5));
    assert_eq!(json["summary"]["skipped"].as_u64(), Some(12));
}

#[test]
fn the_report_as_text() {
    let entries = vec![
        entry("/r", Some("main"), Classification::Primary),
        entry("/r/\"q\"", None, Classification::DetachedHead),
        entry("/r/old", Some("old"), merged("old")),
    ];
    let opts = options(true, false, true, true);
    let (_, _, end) = clean(&opts, entries, vec![failed("busy"), Answer::Yes]);
    assert_eq!(
        emit_json(&end),
        Some(
            r#"{
  "summary": {
    "by_classification": {
      "detached": 1,
      "merged": 1,
      "primary": 1
    },
    "failures": 1,
    "skipped": 1,
    "to_clean": 2,
    "total": 3
  },
  "worktrees": [
    {
      "action": "skip",
      "branch": "main",
      "classification": "primary",
      "path": "/r",
      "reason": "primary worktree"
    },
    {
      "action": "clean",
      "branch": null,
      "classification": "detached",
      "error": "busy",
      "failed": true,
      "path": "/r/\"q\"",
      "reason": "detached HEAD"
    },
    {
      "action": "clean",
      "branch": "old",
      "classification": "merged",
      "path": "/r/old",
      "reason": "branch old merged into target"
    }
  ]
}"#
            .to_string()
        )
    );
    assert_eq!(
        end.complaint(),
        Some("wt clean: 1 worktree(s) failed to clean".to_string())
    );
}

#[test]
fn a_failure_marks_its_path() {
    let at = |path_id: usize, path: &str| CleanEntry {
        path_id,
        ..entry(path, Some("a"), merged("a"))
    };
    let failure = |path_id: usize, error: &str| CleanFailure {
        path_id,
        error: error.to_string(),
    };
    // Two paths that are shown alike, and one path that is listed twice.
    let entries = vec![at(0, "/\u{fffd}"), at(1, "/\u{fffd}"), at(2, "/a"), at(2, "/a")];
    let failures = vec![failure(1, "one"), failure(2, "first"), failure(2, "second")];
    let json = clean_document(&entries, false, &failures);
    assert!(json["worktrees"][0].get("failed").is_none());
    assert!(json["worktrees"][0].get("error").is_none());
    assert_eq!(json["worktrees"][1]["error"], "one");
    assert_eq!(json["worktrees"][1]["failed"], true);
    assert_eq!(json["worktrees"][2]["error"], "first");
    assert_eq!(json["worktrees"][3]["error"], "first");
    assert_eq!(json["worktrees"][3]["failed"], true);
    assert_eq!(json["summary"]["failures"], 3);
    let json = clean_document(&entries, false, &vec![]);
    assert!(json["worktrees"][1].get("failed").is_none());
    assert!(json["summary"].get("failures").is_none());
}

#[test]
fn what_cleans_one_worktree() {
    let gone = entry("/r/gone", Some("gone"), Classification::Prunable);
    for force in [false, true] {
        match clean_one(&gone, "main", force) {
            CleanAction::Prune(command) => assert_eq!(command.args, vec!["worktree", "prune"]),
            other => panic!("{other:?}"),
        }
    }
    let old = entry("/r/old", Some("old"), merged("old"));
    for (force, mode) in
        [(false, BranchDeletionMode::SafeDelete), (true, BranchDeletionMode::ForceDelete)]
    {
        assert_eq!(
            clean_one(&old, "main", force),
            CleanAction::Remove {
                path: "/r/old".to_string(),
                branch: Some("old".to_string()),
                mode,
                target_branch: "main".to_string(),
                force_worktree: force,
            }
        );
    }
}

#[test]
fn json_mode_cleans_only_what_is_confirmed() {
    let (actions, lines, end) = clean(&options(false, false, false, true), worktrees(), vec![]);
    assert_eq!(actions, vec![]);
    assert_eq!(lines, vec![]);
    assert_eq!(end.failures, vec![]);
    let (actions, lines, _) = clean(
        &options(true, false, false, true),
        worktrees(),
        vec![Answer::Yes, Answer::Yes],
    );
    assert_eq!(actions.len(), 2);
    assert_eq!(lines, vec![]);
}
