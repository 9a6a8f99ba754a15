//! What a merge was asked to do.

use vstd::prelude::*;
use crate::reconcile::RemoteDivergenceStrategy;

verus! {

/// Which changes a commit takes along.
#[derive(Debug, Clone, Copy, PartialEq, Eq, Structural)]
pub enum StageMode {
    /// Everything, untracked files too.
    All,
    /// Changes to tracked files.
    TrackedOnly,
    /// Nothing beyond what is staged already.
    Nothing,
}

/// Output format.
#[derive(Debug, Clone, Copy, PartialEq, Eq, Structural)]
pub enum SwitchFormat {
    Text,
    Json,
}

/// A point in a worktree's life at which commands of the project run.
#[derive(Debug, Clone, Copy, PartialEq, Eq, Structural)]
pub enum HookType {
    PreCommit,
    PostCommit,
    PreMerge,
    PostMerge,
    PreRemove,
    PostRemove,
    PostSwitch,
}

/// Options for the merge command
///
/// All boolean fields are optional CLI overrides. If None, the effective config
/// is used.
#[derive(Debug, Clone, Copy, PartialEq, Eq)]
pub struct MergeOptions<'a> {
    pub target: Option<&'a str>,
    /// CLI override for squash. None = use effective config default.
    pub squash: Option<bool>,
    /// CLI override for commit. None = use effective config default.
    pub commit: Option<bool>,
    /// CLI override for rebase. None = use effective config default.
    pub rebase: Option<bool>,
    /// CLI override for remove. None = use effective config default.
    pub remove: Option<bool>,
    /// CLI override for ff. None = use effective config default.
    pub ff: Option<bool>,
    /// CLI override for verify. None = use effective config default.
    pub verify: Option<bool>,
    pub yes: bool,
    /// CLI override for stage mode. None = use effective config default.
    pub stage: Option<StageMode>,
    /// Skip the pre-squash `git fetch <remote> <target>`. The squash anchor still
    /// resolves to the existing remote-tracking ref; the user must trust that the
    /// cached `refs/remotes/<remote>/<target>` is current.
    pub no_fetch: bool,
    /// Output format (text or json).
    pub format: SwitchFormat,
}

/// The effective configuration: project-specific settings over global ones,
/// with defaults applied.
#[derive(Debug, Clone, Copy, PartialEq, Eq, Structural)]
pub struct MergeSettings {
    pub squash: bool,
    pub commit: bool,
    pub rebase: bool,
    pub remove: bool,
    pub ff: bool,
    pub verify: bool,
    pub stage: StageMode,
    /// Whether the branch lands through the remote.
    pub push_to_origin: bool,
    pub on_diverged_remote: RemoteDivergenceStrategy,
    pub auto_open_pr_if_missing: bool,
    pub draft: bool,
}

/// What a merge does, once options and configuration are put together.
#[derive(Debug, Clone, Copy, PartialEq, Eq, Structural)]
pub struct MergePlan {
    pub commit: bool,
    /// Whether commits are squashed. That takes a commit.
    pub squash: bool,
    pub rebase: bool,
    pub remove: bool,
    pub ff: bool,
    pub verify: bool,
    pub stage: StageMode,
    pub yes: bool,
    pub no_fetch: bool,
    /// Whether the merge prints its report, as JSON.
    pub json: bool,
    pub push_to_origin: bool,
    pub on_diverged_remote: RemoteDivergenceStrategy,
    pub auto_open_pr_if_missing: bool,
    pub draft: bool,
}

impl MergePlan {
    /// A squash takes a commit.
    pub open spec fn consistent(self) -> bool {
        self.squash ==> self.commit
    }
}

/// What the command line says, or else the configuration.
pub open spec fn or_default<T>(given: Option<T>, configured: T) -> T {
    match given {
        Some(value) => value,
        None => configured,
    }
}

/// What options and configuration come to.
pub open spec fn plan_of(opts: MergeOptions<'_>, settings: MergeSettings) -> MergePlan {
    MergePlan {
        commit: or_default(opts.commit, settings.commit),
        squash: or_default(opts.squash, settings.squash) && or_default(
            opts.commit,
            settings.commit,
        ),
        rebase: or_default(opts.rebase, settings.rebase),
        remove: or_default(opts.remove, settings.remove),
        ff: or_default(opts.ff, settings.ff),
        verify: or_default(opts.verify, settings.verify),
        stage: or_default(opts.stage, settings.stage),
        yes: opts.yes,
        no_fetch: opts.no_fetch,
        json: opts.format == SwitchFormat::Json,
        push_to_origin: settings.push_to_origin,
        on_diverged_remote: settings.on_diverged_remote,
        auto_open_pr_if_missing: settings.auto_open_pr_if_missing,
        draft: settings.draft,
    }
}

/// Puts options and configuration together. The command line wins; no commit
/// means no squash.
pub fn resolve(opts: &MergeOptions<'_>, settings: &MergeSettings) -> (r: MergePlan)
    ensures
        r == plan_of(*opts, *settings),
        r.consistent(),
{
    let commit = opts.commit.unwrap_or(settings.commit);
    let squash = opts.squash.unwrap_or(settings.squash);
    MergePlan {
        commit,
        squash: squash && commit,
        rebase: opts.rebase.unwrap_or(settings.rebase),
        remove: opts.remove.unwrap_or(settings.remove),
        ff: opts.ff.unwrap_or(settings.ff),
        verify: opts.verify.unwrap_or(settings.verify),
        stage: opts.stage.unwrap_or(settings.stage),
        yes: opts.yes,
        no_fetch: opts.no_fetch,
        json: opts.format == SwitchFormat::Json,
        push_to_origin: settings.push_to_origin,
        on_diverged_remote: settings.on_diverged_remote,
        auto_open_pr_if_missing: settings.auto_open_pr_if_missing,
        draft: settings.draft,
    }
}

/// Whether the user is offered the setup of commit messages.
pub open spec fn setup_offered(opts: MergeOptions<'_>) -> bool {
    or_default(opts.commit, true)
}

/// Whether the user is offered the setup of commit messages: unless the command
/// line says that nothing is committed.
pub fn offers_commit_setup(opts: &MergeOptions<'_>) -> (r: bool)
    ensures
        r == setup_offered(*opts),
{
    opts.commit.unwrap_or(true)
}

/// The hooks that a merge may run, in the order in which they are put up for
/// approval.
pub open spec fn hooks_of(
    commit: bool,
    verify: bool,
    will_remove: bool,
    will_create_commit: bool,
) -> Seq<HookType> {
    if !verify {
        Seq::empty()
    } else {
        (if commit && will_create_commit {
            seq![HookType::PreCommit, HookType::PostCommit]
        } else {
            Seq::empty()
        }) + seq![HookType::PreMerge, HookType::PostMerge] + (if will_remove {
            seq![HookType::PreRemove, HookType::PostRemove, HookType::PostSwitch]
        } else {
            Seq::empty()
        })
    }
}

/// Collects the hooks that a merge may run. Commit hooks run where a commit
/// will actually be created.
pub fn collect_merge_commands(
    commit: bool,
    verify: bool,
    will_remove: bool,
    will_create_commit: bool,
) -> (r: Vec<HookType>)
    ensures
        r@ == hooks_of(commit, verify, will_remove, will_create_commit),
{
    let mut hooks: Vec<HookType> = Vec::new();
    if commit && verify && will_create_commit {
        hooks.push(HookType::PreCommit);
        hooks.push(HookType::PostCommit);
    }
    if verify {
        hooks.push(HookType::PreMerge);
        hooks.push(HookType::PostMerge);
        if will_remove {
            hooks.push(HookType::PreRemove);
            hooks.push(HookType::PostRemove);
            hooks.push(HookType::PostSwitch);
        }
    }
    hooks
}

/// What the command line says counts, whatever the configuration says.
pub proof fn the_command_line_wins(opts: MergeOptions<'_>, settings: MergeSettings)
    ensures
        opts.commit matches Some(commit) ==> plan_of(opts, settings).commit == commit,
        opts.rebase matches Some(rebase) ==> plan_of(opts, settings).rebase == rebase,
        opts.remove matches Some(remove) ==> plan_of(opts, settings).remove == remove,
        opts.ff matches Some(ff) ==> plan_of(opts, settings).ff == ff,
        opts.verify matches Some(verify) ==> plan_of(opts, settings).verify == verify,
        opts.stage matches Some(stage) ==> plan_of(opts, settings).stage == stage,
        opts.squash matches Some(squash) ==> plan_of(opts, settings).squash == (squash && plan_of(
            opts,
            settings,
        ).commit),
        plan_of(opts, settings).yes == opts.yes,
        plan_of(opts, settings).no_fetch == opts.no_fetch,
        plan_of(opts, settings).json <==> opts.format == SwitchFormat::Json,
{
}

/// Where the command line is silent the configuration counts. How the branch
/// lands is its alone to say. Without a commit there is no squash, whoever asks
/// for one.
pub proof fn the_configuration_fills_in(opts: MergeOptions<'_>, settings: MergeSettings)
    ensures
        opts.commit is None ==> plan_of(opts, settings).commit == settings.commit,
        opts.rebase is None ==> plan_of(opts, settings).rebase == settings.rebase,
        opts.remove is None ==> plan_of(opts, settings).remove == settings.remove,
        opts.ff is None ==> plan_of(opts, settings).ff == settings.ff,
        opts.verify is None ==> plan_of(opts, settings).verify == settings.verify,
        opts.stage is None ==> plan_of(opts, settings).stage == settings.stage,
        opts.squash is None ==> plan_of(opts, settings).squash == (settings.squash && plan_of(
            opts,
            settings,
        ).commit),
        !plan_of(opts, settings).commit ==> !plan_of(opts, settings).squash,
        plan_of(opts, settings).push_to_origin == settings.push_to_origin,
        plan_of(opts, settings).on_diverged_remote == settings.on_diverged_remote,
        plan_of(opts, settings).auto_open_pr_if_missing == settings.auto_open_pr_if_missing,
        plan_of(opts, settings).draft == settings.draft,
{
}

/// What is put up for approval: the hooks around the merge where hooks run, those
/// around a commit where one will be created, those around a removal where the
/// worktree goes; each once, and nothing without hooks.
pub proof fn what_is_put_up_for_approval(
    commit: bool,
    verify: bool,
    will_remove: bool,
    will_create_commit: bool,
    hook: HookType,
)
    ensures
        ({
            let hooks = hooks_of(commit, verify, will_remove, will_create_commit);
            &&& hooks.contains(hook) <==> verify && match hook {
                HookType::PreMerge | HookType::PostMerge => true,
                HookType::PreCommit | HookType::PostCommit => commit && will_create_commit,
                HookType::PreRemove | HookType::PostRemove | HookType::PostSwitch => will_remove,
            }
            &&& hooks.no_duplicates()
        }),
{
    let hooks = hooks_of(commit, verify, will_remove, will_create_commit);
    let first = if commit && will_create_commit {
        2int
    } else {
        0int
    };
    if verify {
        assert(hooks[first] == HookType::PreMerge);
        assert(hooks[first + 1] == HookType::PostMerge);
        if commit && will_create_commit {
            assert(hooks[0] == HookType::PreCommit);
            assert(hooks[1] == HookType::PostCommit);
        }
        if will_remove {
            assert(hooks[first + 2] == HookType::PreRemove);
            assert(hooks[first + 3] == HookType::PostRemove);
            assert(hooks[first + 4] == HookType::PostSwitch);
        }
    }
}

/// The setup of commit messages is offered unless the command line says that
/// nothing is committed.
pub proof fn setup_is_offered_unless_nothing_is_committed(opts: MergeOptions<'_>)
    ensures
        setup_offered(opts) <==> opts.commit != Some(false),
{
}

} // verus!
