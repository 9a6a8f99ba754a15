use worktrunk::answer::Answer;
use worktrunk::fault::Fault;
use worktrunk::merge::{handle_merge, MergePlace, MergeRun, MergeWay};
use worktrunk::merge_action::{Destination, MergeAction};
use worktrunk::merge_end::{MergeEnd, MergeError, MergeReport, Note};
use worktrunk::merge_options::{
    collect_merge_commands, offers_commit_setup, resolve, HookType, MergeOptions, MergeSettings,
    StageMode, SwitchFormat,
};
use worktrunk::merge_report::{output_of, report_document};
use worktrunk::reconcile::{ReconcileOutcome, RemoteDivergenceStrategy};
use worktrunk::removal::BranchDeletionMode;

fn options() -> MergeOptions<'static> {
    MergeOptions {
        target: Some("main"),
        squash: None,
        commit: None,
        rebase: None,
        remove: None,
        ff: None,
        verify: None,
        yes: true,
        stage: None,
        no_fetch: false,
        format: SwitchFormat::Text,
    }
}

fn settings() -> MergeSettings {
    MergeSettings {
        squash: true,
        commit: true,
        rebase: true,
        remove: true,
        ff: true,
        verify: true,
        stage: StageMode::All,
        push_to_origin: false,
        on_diverged_remote: RemoteDivergenceStrategy::RemoteSquash,
        auto_open_pr_if_missing: true,
        draft: false,
    }
}

fn place() -> MergePlace {
    MergePlace {
        branch: "feat/x".to_string(),
        worktree_path: "/r/feat-x".to_string(),
        worktree_name: Some("feat-x".to_string()),
    }
}

fn fault(message: &str) -> Fault {
    Fault { message: message.to_string(), causes: vec![] }
}

fn text(s: &str) -> Answer {
    Answer::Text(s.to_string())
}

const COMMIT: &str = "0123456789abcdef";

/// A repository in which everything goes well, with what it was asked for.
struct Repo {
    dirty: bool,
    approves: bool,
    config: bool,
    target_worktree: Option<&'static str>,
    primary: bool,
    rebased: bool,
    outcome: ReconcileOutcome,
    fails: Option<&'static str>,
    asked: Vec<MergeAction>,
    notes: Vec<String>,
}

impl Repo {
    fn new() -> Repo {
        Repo {
            dirty: false,
            approves: true,
            config: true,
            target_worktree: Some("/r/main"),
            primary: false,
            rebased: true,
            outcome: ReconcileOutcome::AlreadyPushed { pr_number: 7 },
            fails: None,
            asked: vec![],
            notes: vec![],
        }
    }

    fn yes_or_no(&self, holds: bool) -> Answer {
        if holds {
            Answer::Yes
        } else {
            Answer::No
        }
    }

    fn answer(&self, action: &MergeAction) -> Answer {
        if let Some(name) = self.fails {
            if name_of(action) == name {
                return Answer::Failed(fault(name));
            }
        }
        match action {
            MergeAction::IsDirty => self.yes_or_no(self.dirty),
            MergeAction::RequireTarget { target } => {
                text(target.as_deref().unwrap_or("trunk"))
            }
            MergeAction::WorktreeFor { .. } => match self.target_worktree {
                Some(path) => text(path),
                None => Answer::No,
            },
            MergeAction::LoadProjectConfig => self.yes_or_no(self.config),
            MergeAction::Approve { .. } => self.yes_or_no(self.approves),
            MergeAction::IsRebasedOnto { .. } => self.yes_or_no(self.rebased),
            MergeAction::Reconcile { .. } => Answer::Reconciled(self.outcome.clone()),
            MergeAction::ReadCommit => text(&format!("{COMMIT}\n")),
            MergeAction::IsPrimaryWorktree => self.yes_or_no(self.primary),
            _ => Answer::Yes,
        }
    }

    fn merge(
        &mut self,
        opts: &MergeOptions<'_>,
        settings: &MergeSettings,
    ) -> Result<MergeEnd, MergeError> {
        self.merge_from(opts, settings, place())
    }

    fn merge_from(
        &mut self,
        opts: &MergeOptions<'_>,
        settings: &MergeSettings,
        place: MergePlace,
    ) -> Result<MergeEnd, MergeError> {
        let mut run: MergeRun = handle_merge(opts, settings, place);
        loop {
            let action = run.action();
            let answer = self.answer(&action);
            assert!(run.expects(&answer), "{action:?} answered by {answer:?}");
            self.asked.push(action);
            let step = run.resume(answer);
            if let Some(note) = step.note {
                self.notes.push(note.text());
            }
            match step.to {
                MergeWay::Next(next) => run = next,
                MergeWay::Done(result) => return result,
            }
        }
    }

    fn names(&self) -> Vec<&'static str> {
        self.asked.iter().map(name_of).collect()
    }
}

fn name_of(action: &MergeAction) -> &'static str {
    match action {
        MergeAction::IsDirty => "dirty?",
        MergeAction::RequireTarget { .. } => "target",
        MergeAction::WorktreeFor { .. } => "worktree",
        MergeAction::LoadProjectConfig => "config",
        MergeAction::Approve { .. } => "approve",
        MergeAction::Commit { .. } => "commit",
        MergeAction::EnsurePrBranch { .. } => "guard",
        MergeAction::Squash { .. } => "squash",
        MergeAction::Rebase { .. } => "rebase",
        MergeAction::IsRebasedOnto { .. } => "rebased?",
        MergeAction::RunPreMergeHooks { .. } => "pre-merge",
        MergeAction::Reconcile { .. } => "reconcile",
        MergeAction::Summarize { .. } => "summarize",
        MergeAction::ResyncTarget { .. } => "resync",
        MergeAction::MergeLocally { .. } => "merge",
        MergeAction::FindHome => "home",
        MergeAction::ReadCommit => "read commit",
        MergeAction::IsPrimaryWorktree => "primary?",
        MergeAction::CheckNotDefaultBranch { .. } => "not default",
        MergeAction::EnsureClean { .. } => "clean",
        MergeAction::RemoveWorktree { .. } => "remove",
        MergeAction::RunPostMergeHooks { .. } => "post-merge",
    }
}

fn report(committed: bool, squashed: bool, rebased: bool, removed: bool) -> MergeReport {
    MergeReport {
        json: false,
        branch: "feat/x".to_string(),
        target: "main".to_string(),
        committed,
        squashed,
        rebased,
        removed,
    }
}

fn variables(pairs: &[(&str, &str)]) -> Vec<(String, String)> {
    pairs.iter().map(|(a, b)| (a.to_string(), b.to_string())).collect()
}

#[test]
fn a_local_merge_from_start_to_end() {
    let mut repo = Repo::new();
    repo.dirty = true;
    let end = repo.merge(&options(), &settings()).unwrap();
    assert_eq!(end, MergeEnd::Merged(report(false, true, true, true)));
    assert_eq!(
        repo.names(),
        vec![
            "target", "worktree", "config", "dirty?", "approve", "dirty?", "squash", "rebase",
            "pre-merge", "merge", "read commit", "primary?", "not default", "clean", "remove",
            "post-merge",
        ]
    );
    assert_eq!(
        repo.asked[4],
        MergeAction::Approve {
            hooks: vec![
                HookType::PreCommit,
                HookType::PostCommit,
                HookType::PreMerge,
                HookType::PostMerge,
                HookType::PreRemove,
                HookType::PostRemove,
                HookType::PostSwitch,
            ],
            yes: true,
        }
    );
    assert_eq!(
        repo.asked[8],
        MergeAction::RunPreMergeHooks {
            variables: variables(&[("target", "main"), ("target_worktree_path", "/r/main")]),
        }
    );
    assert_eq!(
        repo.asked[9],
        MergeAction::MergeLocally {
            ff: true,
            target_branch: "main".to_string(),
            branch: "feat/x".to_string(),
            committed: false,
            squashed: true,
            rebased: true,
        }
    );
    assert_eq!(
        repo.asked[13],
        MergeAction::EnsureClean {
            action: "remove worktree after merge".to_string(),
            branch: "feat/x".to_string(),
            force_hint: false,
        }
    );
    assert_eq!(
        repo.asked[14],
        MergeAction::RemoveWorktree {
            destination: Destination::TargetWorktree,
            branch: "feat/x".to_string(),
            mode: BranchDeletionMode::SafeDelete,
            force_worktree: false,
            target_branch: "main".to_string(),
            commit: Some(COMMIT.to_string()),
            verify: true,
        }
    );
    assert_eq!(
        repo.asked[15],
        MergeAction::RunPostMergeHooks {
            destination: Destination::TargetWorktree,
            removed: true,
            variables: variables(&[
                ("target", "main"),
                ("target_worktree_path", "/r/main"),
                ("worktree_path", "/r/feat-x"),
                ("worktree", "/r/feat-x"),
                ("worktree_name", "feat-x"),
                ("commit", COMMIT),
                ("short_commit", "0123456"),
            ]),
        }
    );
    assert_eq!(repo.notes, Vec::<String>::new());
}

#[test]
fn a_merge_through_the_remote_is_cleaned_up_after() {
    let mut repo = Repo::new();
    let remote = MergeSettings { push_to_origin: true, ..settings() };
    let end = repo.merge(&options(), &remote).unwrap();
    assert_eq!(end, MergeEnd::Merged(report(false, true, true, true)));
    assert_eq!(
        repo.names(),
        vec![
            "target", "worktree", "config", "dirty?", "approve", "dirty?", "dirty?", "guard",
            "squash", "rebase", "pre-merge", "reconcile", "summarize", "resync", "read commit",
            "primary?", "not default", "clean", "remove", "post-merge",
        ]
    );
    assert_eq!(
        repo.asked[7],
        MergeAction::EnsurePrBranch { branch: "feat/x".to_string(), dirty: false }
    );
    assert_eq!(
        repo.asked[11],
        MergeAction::Reconcile {
            branch: "feat/x".to_string(),
            target_branch: "main".to_string(),
            strategy: RemoteDivergenceStrategy::RemoteSquash,
            auto_open_pr_if_missing: true,
            draft: false,
        }
    );
    assert_eq!(
        repo.asked[12],
        MergeAction::Summarize { target_branch: "main".to_string(), pr_number: 7 }
    );
    match &repo.asked[13] {
        MergeAction::ResyncTarget { command } => assert_eq!(
            command.args,
            vec!["read-tree", "-m", "-u", "refs/heads/main@{1}", "refs/heads/main"]
        ),
        other => panic!("{other:?}"),
    }
    assert_eq!(
        repo.notes,
        vec!["Provider completed the squash-merge; skipping the redundant local merge."]
    );
}

#[test]
fn a_draft_stops_the_merge() {
    let mut repo = Repo::new();
    repo.outcome = ReconcileOutcome::OpenedDraftPr { pr_number: 12 };
    let remote = MergeSettings { push_to_origin: true, draft: true, ..settings() };
    let end = repo.merge(&options(), &remote).unwrap();
    assert_eq!(end, MergeEnd::Draft { pr_number: 12 });
    assert_eq!(*repo.names().last().unwrap(), "reconcile");
    assert_eq!(
        repo.notes,
        vec![
            "Opened draft PR #12; merge skipped. Mark it ready for review then re-run `wt merge` \
             to land it."
        ]
    );
    assert_eq!(output_of(&end), None);
}

#[test]
fn changes_are_committed_where_nothing_is_squashed() {
    let mut repo = Repo::new();
    repo.dirty = true;
    let opts = MergeOptions {
        squash: Some(false),
        rebase: Some(false),
        verify: Some(false),
        stage: Some(StageMode::TrackedOnly),
        ff: Some(false),
        ..options()
    };
    let end = repo.merge(&opts, &settings()).unwrap();
    assert_eq!(end, MergeEnd::Merged(report(true, false, false, true)));
    assert_eq!(
        repo.names(),
        vec![
            "target", "worktree", "config", "dirty?", "approve", "dirty?", "commit", "rebased?",
            "merge", "read commit", "primary?", "not default", "clean", "remove",
        ]
    );
    assert_eq!(repo.asked[4], MergeAction::Approve { hooks: vec![], yes: true });
    assert_eq!(
        repo.asked[6],
        MergeAction::Commit {
            target_branch: "main".to_string(),
            verify: false,
            stage: StageMode::TrackedOnly,
            warn_about_untracked: false,
            show_no_squash_note: true,
        }
    );
    assert!(matches!(repo.asked[8], MergeAction::MergeLocally { ff: false, .. }));
}

#[test]
fn declined_commands_do_not_run() {
    let mut repo = Repo::new();
    repo.approves = false;
    let end = repo.merge(&options(), &settings()).unwrap();
    assert_eq!(end, MergeEnd::Merged(report(false, true, true, true)));
    assert!(!repo.names().contains(&"pre-merge"));
    assert!(!repo.names().contains(&"post-merge"));
    assert!(repo.asked.iter().any(|a| matches!(a, MergeAction::Squash { verify: false, .. })));
    assert!(repo
        .asked
        .iter()
        .any(|a| matches!(a, MergeAction::RemoveWorktree { verify: false, .. })));
    assert_eq!(repo.notes, vec!["Commands declined, continuing merge"]);
}

#[test]
fn a_project_without_configuration_has_nothing_to_approve() {
    let mut repo = Repo::new();
    repo.config = false;
    repo.merge(&options(), &settings()).unwrap();
    assert_eq!(repo.names()[..5], ["target", "worktree", "config", "approve", "dirty?"]);
    assert_eq!(repo.asked[3], MergeAction::Approve { hooks: vec![], yes: true });
}

#[test]
fn without_a_commit_changes_are_refused_first() {
    let mut repo = Repo::new();
    repo.dirty = true;
    let opts = MergeOptions { commit: Some(false), ..options() };
    assert_eq!(
        repo.merge(&opts, &settings()),
        Err(MergeError::UncommittedChanges {
            action: "merge with --no-commit".to_string(),
            branch: "feat/x".to_string(),
            force_hint: false,
        })
    );
    assert_eq!(repo.names(), vec!["dirty?"]);
    let mut repo = Repo::new();
    repo.merge(&opts, &settings()).unwrap();
    assert!(!repo.names().contains(&"squash"));
    assert!(!repo.names().contains(&"commit"));
}

#[test]
fn a_branch_that_is_not_rebased_is_refused() {
    let mut repo = Repo::new();
    repo.rebased = false;
    let opts = MergeOptions { rebase: Some(false), ..options() };
    assert_eq!(
        repo.merge(&opts, &settings()),
        Err(MergeError::NotRebased { target_branch: "main".to_string() })
    );
    assert!(!repo.names().contains(&"merge"));
}

#[test]
fn failed_pre_merge_hooks_keep_the_target_as_it_is() {
    for push_to_origin in [false, true] {
        let mut repo = Repo::new();
        repo.fails = Some("pre-merge");
        let settings = MergeSettings { push_to_origin, ..settings() };
        assert_eq!(
            repo.merge(&options(), &settings),
            Err(MergeError::Failed(fault("pre-merge")))
        );
        assert!(!repo.names().contains(&"merge"));
        assert!(!repo.names().contains(&"reconcile"));
    }
}

#[test]
fn a_refusing_guard_stops_before_the_squash() {
    let mut repo = Repo::new();
    repo.fails = Some("guard");
    let remote = MergeSettings { push_to_origin: true, ..settings() };
    assert_eq!(repo.merge(&options(), &remote), Err(MergeError::Failed(fault("guard"))));
    assert!(!repo.names().contains(&"squash"));
}

#[test]
fn what_is_only_shown_cannot_fail_a_merge() {
    for name in ["summarize", "resync", "read commit"] {
        let mut repo = Repo::new();
        repo.fails = Some(name);
        let remote = MergeSettings { push_to_origin: true, ..settings() };
        let end = repo.merge(&options(), &remote).unwrap();
        assert_eq!(end, MergeEnd::Merged(report(false, true, true, true)));
    }
    let mut repo = Repo::new();
    repo.fails = Some("read commit");
    repo.merge(&options(), &settings()).unwrap();
    match repo.asked.last().unwrap() {
        MergeAction::RunPostMergeHooks { variables, .. } => {
            assert_eq!(variables.last().unwrap().0, "worktree_name")
        }
        other => panic!("{other:?}"),
    }
}

#[test]
fn every_other_failure_ends_the_merge() {
    for name in [
        "dirty?", "target", "worktree", "config", "approve", "squash", "rebase", "merge",
        "primary?", "not default", "clean", "remove", "post-merge",
    ] {
        let mut repo = Repo::new();
        repo.fails = Some(name);
        assert_eq!(
            repo.merge(&options(), &settings()),
            Err(MergeError::Failed(fault(name)))
        );
        assert_eq!(*repo.names().last().unwrap(), name);
    }
}

#[test]
fn a_worktree_stays_where_it_must() {
    let mut repo = Repo::new();
    let opts = MergeOptions { remove: Some(false), ..options() };
    let end = repo.merge(&opts, &settings()).unwrap();
    assert_eq!(end, MergeEnd::Merged(report(false, true, true, false)));
    assert_eq!(repo.notes, vec!["Worktree preserved (--no-remove)"]);

    let mut repo = Repo::new();
    let opts = MergeOptions { target: Some("feat/x"), ..options() };
    repo.merge(&opts, &settings()).unwrap();
    assert!(!repo.names().contains(&"remove"));
    assert_eq!(repo.notes, vec!["Worktree preserved (already on target branch)"]);

    let mut repo = Repo::new();
    repo.primary = true;
    repo.merge(&options(), &settings()).unwrap();
    assert!(!repo.names().contains(&"remove"));
    assert_eq!(repo.notes, vec!["Worktree preserved (primary worktree)"]);
    assert!(matches!(
        repo.asked.last().unwrap(),
        MergeAction::RunPostMergeHooks { removed: false, .. }
    ));
}

#[test]
fn without_a_worktree_of_the_target_the_user_goes_home() {
    let mut repo = Repo::new();
    repo.target_worktree = None;
    let remote = MergeSettings { push_to_origin: true, ..settings() };
    repo.merge(&options(), &remote).unwrap();
    assert!(repo.names().contains(&"home"));
    assert!(!repo.names().contains(&"resync"));
    match repo.asked.last().unwrap() {
        MergeAction::RunPostMergeHooks { destination, variables, .. } => {
            assert_eq!(*destination, Destination::Home);
            assert_eq!(variables[1].0, "worktree_path");
        }
        other => panic!("{other:?}"),
    }
}

#[test]
fn a_nameless_worktree_is_unknown() {
    let mut repo = Repo::new();
    let opts = MergeOptions { target: None, ..options() };
    let nameless = MergePlace { worktree_name: None, ..place() };
    repo.merge_from(&opts, &settings(), nameless).unwrap();
    assert_eq!(repo.asked[0], MergeAction::RequireTarget { target: None });
    match repo.asked.last().unwrap() {
        MergeAction::RunPostMergeHooks { variables, .. } => {
            assert!(variables.contains(&("worktree_name".to_string(), "unknown".to_string())))
        }
        other => panic!("{other:?}"),
    }
}

#[test]
fn answers_of_another_sort_are_not_expected() {
    let run = handle_merge(&options(), &settings(), place());
    assert!(!run.expects(&Answer::Yes));
    assert!(!run.expects(&Answer::No));
    assert!(run.expects(&text("main")));
    assert!(run.expects(&Answer::Failed(fault("x"))));
}

#[test]
fn the_command_line_wins_over_the_configuration() {
    let opts = MergeOptions {
        squash: Some(true),
        commit: Some(false),
        rebase: Some(false),
        remove: Some(false),
        ff: Some(false),
        verify: Some(false),
        stage: Some(StageMode::Nothing),
        format: SwitchFormat::Json,
        ..options()
    };
    let plan = resolve(&opts, &settings());
    assert!(!plan.commit && !plan.squash && !plan.rebase);
    assert!(!plan.remove && !plan.ff && !plan.verify);
    assert_eq!(plan.stage, StageMode::Nothing);
    assert!(plan.json);
    let plan = resolve(&options(), &settings());
    assert!(plan.commit && plan.squash && plan.rebase && plan.remove && plan.ff && plan.verify);
    assert_eq!(plan.stage, StageMode::All);
    assert!(!plan.json);
    assert!(offers_commit_setup(&options()));
    assert!(!offers_commit_setup(&opts));
}

#[test]
fn hooks_are_collected_for_what_will_happen() {
    assert_eq!(
        collect_merge_commands(true, true, false, false),
        vec![HookType::PreMerge, HookType::PostMerge]
    );
    assert_eq!(
        collect_merge_commands(false, true, true, true),
        vec![
            HookType::PreMerge,
            HookType::PostMerge,
            HookType::PreRemove,
            HookType::PostRemove,
            HookType::PostSwitch,
        ]
    );
    assert_eq!(collect_merge_commands(true, false, true, true), vec![]);
}

#[test]
fn notes_in_words() {
    assert_eq!(Note::PreservedPrimary.text(), "Worktree preserved (primary worktree)");
    assert_eq!(Note::CommandsDeclined.text(), "Commands declined, continuing merge");
}

#[test]
fn the_report_is_printed_exactly_if_json_was_asked_for() {
    for (format, printed) in [(SwitchFormat::Json, true), (SwitchFormat::Text, false)] {
        for push_to_origin in [false, true] {
            let opts = MergeOptions { format, ..options() };
            let settings = MergeSettings { push_to_origin, ..settings() };
            let end = Repo::new().merge(&opts, &settings).unwrap();
            assert_eq!(output_of(&end).is_some(), printed);
            let mut draft = Repo::new();
            draft.outcome = ReconcileOutcome::OpenedDraftPr { pr_number: 3 };
            if push_to_origin {
                assert_eq!(output_of(&draft.merge(&opts, &settings).unwrap()), None);
            }
        }
    }
}

#[test]
fn the_merge_report_as_text() {
    let asked_for = MergeReport { json: true, ..report(true, false, true, false) };
    assert_eq!(
        output_of(&MergeEnd::Merged(asked_for)),
        Some(
            r#"{
  "branch": "feat/x",
  "committed": true,
  "rebased": true,
  "removed": false,
  "squashed": false,
  "target": "main"
}"#
            .to_string()
        )
    );
    assert_eq!(output_of(&MergeEnd::Merged(report(true, false, true, false))), None);
    let document = report_document(&report(true, false, true, false));
    assert_eq!(document["committed"], true);
    assert_eq!(document["branch"], "feat/x");
}
