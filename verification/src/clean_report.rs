//! The report of a cleanup as JSON.
//!
//! The document has a list of the worktrees, each with its path, branch,
//! classification, the action and the reason, and a summary of counts. A
//! worktree that could not be cleaned is marked so.

use vstd::prelude::*;
use crate::clean::{
    CleanEntry, EntryView, action_for, count_picked, each_goes_or_stays, entry_views, kept, picked,
    reason_for,
};
use crate::clean_laws::may_go;
use crate::cleanup::{CleanEnd, CleanEndView, CleanFailure, FailureView, failure_views};
use crate::json::{
    Fields, Json, all_of, boolean, integer, json_of, list, new_map, null, object,
    object_of, pretty_text, put, render, string,
};
use crate::text::decimal;

verus! {

/// The reason for the first failure at a path, if there is one.
pub open spec fn error_of(path_id: int, failures: Seq<FailureView>) -> Option<Seq<char>>
    decreases failures.len(),
{
    if failures.len() == 0 {
        None
    } else if failures.first().path_id == path_id {
        Some(failures.first().error)
    } else {
        error_of(path_id, failures.drop_first())
    }
}

/// What the report says of a worktree.
pub open spec fn entry_json(entry: EntryView, force: bool, failures: Seq<FailureView>) -> Json {
    let fields = Fields::empty().insert("path"@, Json::Text(entry.path)).insert(
        "branch"@,
        match entry.branch {
            Some(branch) => Json::Text(branch),
            None => Json::Null,
        },
    ).insert("classification"@, Json::Text(entry.class.label())).insert(
        "action"@,
        Json::Text(entry.class.action(force)),
    ).insert("reason"@, Json::Text(entry.class.reason()));
    Json::Object(
        match error_of(entry.path_id, failures) {
            Some(error) => fields.insert("failed"@, Json::Bool(true)).insert(
                "error"@,
                Json::Text(error),
            ),
            None => fields,
        },
    )
}

/// How many worktrees are classified by a word.
pub open spec fn count_of(entries: Seq<EntryView>, label: Seq<char>) -> nat {
    entries.filter(|e: EntryView| e.class.label() == label).len()
}

/// How many worktrees are classified by each word that occurs.
pub open spec fn tally(entries: Seq<EntryView>) -> Fields {
    Map::new(
        |label: Seq<char>| count_of(entries, label) > 0,
        |label: Seq<char>| Json::Number(decimal(count_of(entries, label))),
    )
}

/// The summary of the report.
pub open spec fn summary_json(
    entries: Seq<EntryView>,
    force: bool,
    failures: Seq<FailureView>,
) -> Json {
    let fields = Fields::empty().insert("total"@, Json::Number(decimal(entries.len()))).insert(
        "to_clean"@,
        Json::Number(decimal(picked(entries, force).len())),
    ).insert("skipped"@, Json::Number(decimal(kept(entries, force).len()))).insert(
        "by_classification"@,
        Json::Object(tally(entries)),
    );
    Json::Object(
        if failures.len() > 0 {
            fields.insert("failures"@, Json::Number(decimal(failures.len())))
        } else {
            fields
        },
    )
}

/// The report.
pub open spec fn clean_json(
    entries: Seq<EntryView>,
    force: bool,
    failures: Seq<FailureView>,
) -> Json {
    Json::Object(
        Fields::empty().insert(
            "worktrees"@,
            Json::List(entries.map_values(|e: EntryView| entry_json(e, force, failures))),
        ).insert("summary"@, summary_json(entries, force, failures)),
    )
}

/// Finds the reason for the first failure at a path.
fn find_error<'a>(path_id: usize, failures: &'a Vec<CleanFailure>) -> (r: Option<&'a String>)
    ensures
        match r {
            Some(error) => error_of(path_id as int, failure_views(failures@)) == Some(error@),
            None => error_of(path_id as int, failure_views(failures@)) is None,
        },
{
    let ghost all = failure_views(failures@);
    let mut i: usize = 0;
    assert(all.skip(0) =~= all);
    while i < failures.len()
        invariant
            i <= failures@.len(),
            all == failure_views(failures@),
            error_of(path_id as int, all) == error_of(path_id as int, all.skip(i as int)),
        decreases failures@.len() - i,
    {
        assert(all.skip(i as int).first() == failures@[i as int]@);
        assert(all.skip(i as int).drop_first() =~= all.skip(i + 1));
        if failures[i].path_id == path_id {
            return Some(&failures[i].error);
        }
        i = i + 1;
    }
    None
}

/// What the report says of a worktree.
fn entry_document(entry: &CleanEntry, force: bool, failures: &Vec<CleanFailure>) -> (r:
    serde_json::Value)
    ensures
        json_of(r) == entry_json(entry@, force, failure_views(failures@)),
{
    let mut fields = new_map();
    put(&mut fields, "path", string(entry.path.as_str()));
    let branch = match &entry.branch {
        Some(branch) => string(branch.as_str()),
        None => null(),
    };
    put(&mut fields, "branch", branch);
    put(&mut fields, "classification", string(entry.classification.label()));
    put(&mut fields, "action", string(action_for(&entry.classification, force)));
    let reason = reason_for(&entry.classification);
    put(&mut fields, "reason", string(reason.as_str()));
    if let Some(error) = find_error(entry.path_id, failures) {
        put(&mut fields, "failed", boolean(true));
        put(&mut fields, "error", string(error.as_str()));
    }
    object(fields)
}

/// Counts the worktrees that are classified by a word.
fn count(entries: &Vec<CleanEntry>, label: &str) -> (r: usize)
    ensures
        r == count_of(entry_views(entries@), label@),
{
    let ghost all = entry_views(entries@);
    let ghost has = |e: EntryView| e.class.label() == label@;
    let wanted = label.to_owned();
    let mut found: usize = 0;
    let mut i: usize = 0;
    proof {
        reveal(Seq::filter);
        assert(all.take(0) =~= Seq::<EntryView>::empty());
    }
    while i < entries.len()
        invariant
            i <= entries@.len(),
            all == entry_views(entries@),
            has == (|e: EntryView| e.class.label() == label@),
            wanted@ == label@,
            found == all.take(i as int).filter(has).len(),
            found <= i,
        decreases entries@.len() - i,
    {
        proof {
            assert(all.take(i + 1) =~= all.take(i as int).push(all[i as int]));
            all.take(i as int).lemma_filter_push(all[i as int], has);
        }
        if entries[i].classification.label().to_owned() == wanted {
            found = found + 1;
        }
        i = i + 1;
    }
    assert(all.take(i as int) =~= all);
    found
}

/// Whether a word is one that classifies worktrees.
spec fn is_label(label: Seq<char>) -> bool {
    ||| label == "primary"@
    ||| label == "current"@
    ||| label == "locked"@
    ||| label == "prunable"@
    ||| label == "dirty"@
    ||| label == "not-merged"@
    ||| label == "detached"@
    ||| label == "merged"@
}

/// A word that occurs is one that classifies worktrees.
proof fn lemma_labels(entries: Seq<EntryView>, label: Seq<char>)
    requires
        count_of(entries, label) > 0,
    ensures
        is_label(label),
{
    let has = |e: EntryView| e.class.label() == label;
    entries.lemma_filter_pred(has, 0);
}

/// Whether a map holds nothing but counts of words that occur.
spec fn counts(fields: Fields, entries: Seq<EntryView>) -> bool {
    forall|label: Seq<char>| #[trigger]
        fields.dom().contains(label) ==> count_of(entries, label) > 0 && fields[label]
            == Json::Number(decimal(count_of(entries, label)))
}

/// Whether a map holds the count of a word, if that occurs.
spec fn covers(fields: Fields, entries: Seq<EntryView>, label: Seq<char>) -> bool {
    count_of(entries, label) > 0 ==> fields.dom().contains(label)
}

/// Adds the count of a word, if it occurs.
fn put_count(
    fields: &mut serde_json::Map<String, serde_json::Value>,
    entries: &Vec<CleanEntry>,
    label: &str,
)
    requires
        counts(object_of(*old(fields)), entry_views(entries@)),
    ensures
        counts(object_of(*final(fields)), entry_views(entries@)),
        covers(object_of(*final(fields)), entry_views(entries@), label@),
        forall|other: Seq<char>|
            covers(object_of(*old(fields)), entry_views(entries@), other) ==> #[trigger] covers(
                object_of(*final(fields)),
                entry_views(entries@),
                other,
            ),
{
    let found: usize = count(entries, label);
    if found > 0 {
        put(fields, label, integer(found as u64));
    }
}

/// How many worktrees are classified by each word that occurs.
fn tally_document(entries: &Vec<CleanEntry>) -> (r: serde_json::Value)
    ensures
        json_of(r) == Json::Object(tally(entry_views(entries@))),
{
    let mut fields = new_map();
    put_count(&mut fields, entries, "primary");
    put_count(&mut fields, entries, "current");
    put_count(&mut fields, entries, "locked");
    put_count(&mut fields, entries, "prunable");
    put_count(&mut fields, entries, "dirty");
    put_count(&mut fields, entries, "not-merged");
    put_count(&mut fields, entries, "detached");
    put_count(&mut fields, entries, "merged");
    proof {
        let all = entry_views(entries@);
        assert forall|label: Seq<char>| #[trigger] count_of(all, label) > 0 implies object_of(
            fields,
        ).dom().contains(label) by {
            lemma_labels(all, label);
            assert(covers(object_of(fields), all, label));
        }
        assert(object_of(fields) =~= tally(all));
    }
    object(fields)
}

/// The summary of the report.
fn summary_document(entries: &Vec<CleanEntry>, force: bool, failures: &Vec<CleanFailure>) -> (r:
    serde_json::Value)
    ensures
        json_of(r) == summary_json(entry_views(entries@), force, failure_views(failures@)),
{
    let to_clean: usize = count_picked(entries, force);
    proof {
        each_goes_or_stays(entry_views(entries@), force);
    }
    let skipped: usize = entries.len() - to_clean;
    let mut fields = new_map();
    put(&mut fields, "total", integer(entries.len() as u64));
    put(&mut fields, "to_clean", integer(to_clean as u64));
    put(&mut fields, "skipped", integer(skipped as u64));
    put(&mut fields, "by_classification", tally_document(entries));
    if !failures.is_empty() {
        put(&mut fields, "failures", integer(failures.len() as u64));
    }
    object(fields)
}

/// The report as a JSON document.
pub fn clean_document(entries: &Vec<CleanEntry>, force: bool, failures: &Vec<CleanFailure>) -> (r:
    serde_json::Value)
    ensures
        json_of(r) == clean_json(entry_views(entries@), force, failure_views(failures@)),
{
    let ghost all = entry_views(entries@);
    let ghost failed = failure_views(failures@);
    let mut worktrees: Vec<serde_json::Value> = Vec::new();
    let mut i: usize = 0;
    while i < entries.len()
        invariant
            i <= entries@.len(),
            all == entry_views(entries@),
            failed == failure_views(failures@),
            worktrees@.len() == i,
            forall|j: int|
                0 <= j < i ==> json_of(#[trigger] worktrees@[j]) == entry_json(
                    all[j],
                    force,
                    failed,
                ),
        decreases entries@.len() - i,
    {
        worktrees.push(entry_document(&entries[i], force, failures));
        i = i + 1;
    }
    assert(all_of(worktrees@) =~= all.map_values(|e: EntryView| entry_json(e, force, failed)));
    let mut fields = new_map();
    put(&mut fields, "worktrees", list(worktrees));
    put(&mut fields, "summary", summary_document(entries, force, failures));
    object(fields)
}

impl CleanEndView {
    /// What the cleanup prints on standard output: the report, where JSON was
    /// asked for.
    pub open spec fn printed(self) -> Option<Json> {
        if self.json {
            Some(clean_json(self.entries, self.force, self.failures))
        } else {
            None
        }
    }
}

/// What a cleanup prints on standard output.
pub fn emit_json(end: &CleanEnd) -> (r: Option<String>)
    ensures
        match (r, end@.printed()) {
            (Some(text), Some(document)) => text@ == pretty_text(document),
            (None, None) => true,
            _ => false,
        },
{
    if !end.json {
        return None;
    }
    Some(render(&clean_document(&end.entries, end.force, &end.failures)))
}

/// What the report says of a worktree: its path, branch, classification, action
/// and reason, and, exactly if it failed, that it did and why.
pub proof fn the_fields_of_a_worktree(
    entry: EntryView,
    force: bool,
    failures: Seq<FailureView>,
)
    ensures
        ({
            let fields = entry_json(entry, force, failures)->Object_0;
            &&& entry_json(entry, force, failures) is Object
            &&& fields["path"@] == Json::Text(entry.path)
            &&& fields["branch"@] == match entry.branch {
                Some(branch) => Json::Text(branch),
                None => Json::Null,
            }
            &&& fields["classification"@] == Json::Text(entry.class.label())
            &&& fields["action"@] == Json::Text(
                if may_go(entry.class, force) {
                    "clean"@
                } else {
                    "skip"@
                },
            )
            &&& fields["reason"@] == Json::Text(entry.class.reason())
            &&& forall|key: Seq<char>| #[trigger]
                fields.dom().contains(key) ==> key == "path"@ || key == "branch"@ || key
                    == "classification"@ || key == "action"@ || key == "reason"@ || key
                    == "failed"@ || key == "error"@
            &&& match error_of(entry.path_id, failures) {
                Some(error) => fields["failed"@] == Json::Bool(true) && fields["error"@]
                    == Json::Text(error),
                None => !fields.dom().contains("failed"@) && !fields.dom().contains("error"@),
            }
        }),
{
    reveal_strlit("path");
    reveal_strlit("error");
    reveal_strlit("branch");
    reveal_strlit("action");
    reveal_strlit("reason");
    reveal_strlit("failed");
    reveal_strlit("classification");
    assert("path"@.len() == 4);
    assert("error"@.len() == 5);
    assert("branch"@.len() == 6 && "branch"@[0] == 'b');
    assert("action"@.len() == 6 && "action"@[0] == 'a');
    assert("reason"@.len() == 6 && "reason"@[0] == 'r');
    assert("failed"@.len() == 6 && "failed"@[0] == 'f');
    assert("classification"@.len() == 14);
}

/// A worktree is marked as failed, with the first reason, exactly if some failure
/// has its path.
pub proof fn a_failure_marks_its_path(path_id: int, failures: Seq<FailureView>)
    ensures
        error_of(path_id, failures) is Some <==> exists|i: int|
            0 <= i < failures.len() && (#[trigger] failures[i]).path_id == path_id,
        error_of(path_id, failures) matches Some(error) ==> exists|i: int|
            {
                &&& 0 <= i < failures.len()
                &&& (#[trigger] failures[i]) == (FailureView { path_id, error })
                &&& forall|j: int| 0 <= j < i ==> (#[trigger] failures[j]).path_id != path_id
            },
    decreases failures.len(),
{
    if failures.len() > 0 {
        let rest = failures.drop_first();
        assert(failures.first() == failures[0]);
        if failures[0].path_id == path_id {
            assert(failures[0] == (FailureView { path_id, error: failures[0].error }));
        } else {
            a_failure_marks_its_path(path_id, rest);
            if let Some(error) = error_of(path_id, failures) {
                let k = choose|k: int|
                    {
                        &&& 0 <= k < rest.len()
                        &&& (#[trigger] rest[k]) == (FailureView { path_id, error })
                        &&& forall|j: int| 0 <= j < k ==> (#[trigger] rest[j]).path_id != path_id
                    };
                assert(failures[k + 1] == (FailureView { path_id, error }));
                assert forall|j: int| 0 <= j < k + 1 implies (#[trigger] failures[j]).path_id
                    != path_id by {
                    if j > 0 {
                        assert(rest[j - 1] == failures[j]);
                    }
                }
            }
            if exists|i: int|
                0 <= i < failures.len() && (#[trigger] failures[i]).path_id == path_id {
                let i = choose|i: int|
                    0 <= i < failures.len() && (#[trigger] failures[i]).path_id == path_id;
                assert(rest[i - 1] == failures[i]);
            }
        }
    }
}

/// What the summary says: how many worktrees there are, go and stay, how many
/// there are of each sort, and, exactly if some failed, how many did.
pub proof fn the_fields_of_the_summary(
    entries: Seq<EntryView>,
    force: bool,
    failures: Seq<FailureView>,
)
    ensures
        ({
            let fields = summary_json(entries, force, failures)->Object_0;
            &&& fields["total"@] == Json::Number(decimal(entries.len()))
            &&& fields["to_clean"@] == Json::Number(decimal(picked(entries, force).len()))
            &&& fields["skipped"@] == Json::Number(decimal(kept(entries, force).len()))
            &&& fields["by_classification"@] == Json::Object(tally(entries))
            &&& failures.len() > 0 <==> fields.dom().contains("failures"@)
            &&& failures.len() > 0 ==> fields["failures"@] == Json::Number(decimal(failures.len()))
        }),
{
    reveal_strlit("total");
    reveal_strlit("skipped");
    reveal_strlit("to_clean");
    reveal_strlit("failures");
    reveal_strlit("by_classification");
    assert("total"@.len() == 5);
    assert("skipped"@.len() == 7);
    assert("to_clean"@.len() == 8 && "to_clean"@[0] == 't');
    assert("failures"@.len() == 8 && "failures"@[0] == 'f');
    assert("by_classification"@.len() == 17);
}

/// The report lists the worktrees of the plan, all of them and in order, each
/// with its own fields, beside the summary.
pub proof fn the_report_lists_every_worktree(
    entries: Seq<EntryView>,
    force: bool,
    failures: Seq<FailureView>,
    i: int,
)
    requires
        0 <= i < entries.len(),
    ensures
        ({
            let fields = clean_json(entries, force, failures)->Object_0;
            &&& clean_json(entries, force, failures) is Object
            &&& fields.dom() == set!["worktrees"@, "summary"@]
            &&& fields["summary"@] == summary_json(entries, force, failures)
            &&& fields["worktrees"@] matches Json::List(items) && items.len() == entries.len()
                && items[i] == entry_json(entries[i], force, failures)
        }),
{
    reveal_strlit("worktrees");
    reveal_strlit("summary");
    assert("worktrees"@.len() == 9);
    assert("summary"@.len() == 7);
    assert(clean_json(entries, force, failures)->Object_0.dom() =~= set![
        "worktrees"@,
        "summary"@,
    ]);
}

/// One worktree more counts for its own word, and for no other.
pub proof fn one_more_is_counted(entries: Seq<EntryView>, entry: EntryView, label: Seq<char>)
    ensures
        count_of(Seq::empty(), label) == 0,
        entry.class.label() == label ==> count_of(entries.push(entry), label) == count_of(
            entries,
            label,
        ) + 1,
        entry.class.label() != label ==> count_of(entries.push(entry), label) == count_of(
            entries,
            label,
        ),
{
    reveal(Seq::filter);
    entries.lemma_filter_push(entry, |e: EntryView| e.class.label() == label);
}

/// The tally holds the count of every word that occurs, and of no other.
pub proof fn the_tally_holds_the_counts(entries: Seq<EntryView>, label: Seq<char>)
    ensures
        tally(entries).dom().contains(label) <==> count_of(entries, label) > 0,
        tally(entries).dom().contains(label) ==> tally(entries)[label] == Json::Number(
            decimal(count_of(entries, label)),
        ),
{
}

/// The report is printed exactly if JSON was asked for.
pub proof fn the_report_is_printed_exactly_if_asked_for(end: CleanEndView)
    ensures
        end.json ==> end.printed() == Some(clean_json(end.entries, end.force, end.failures)),
        !end.json ==> end.printed() is None,
{
}

/// The counts by classification add up to the number of worktrees.
pub proof fn the_tally_adds_up(entries: Seq<EntryView>)
    ensures
        count_of(entries, "primary"@) + count_of(entries, "current"@) + count_of(
            entries,
            "locked"@,
        ) + count_of(entries, "prunable"@) + count_of(entries, "dirty"@) + count_of(
            entries,
            "not-merged"@,
        ) + count_of(entries, "detached"@) + count_of(entries, "merged"@) == entries.len(),
    decreases entries.len(),
{
    lemma_labels_differ();
    if entries.len() > 0 {
        the_tally_adds_up(entries.drop_last());
        lemma_count_last(entries, "primary"@);
        lemma_count_last(entries, "current"@);
        lemma_count_last(entries, "locked"@);
        lemma_count_last(entries, "prunable"@);
        lemma_count_last(entries, "dirty"@);
        lemma_count_last(entries, "not-merged"@);
        lemma_count_last(entries, "detached"@);
        lemma_count_last(entries, "merged"@);
    } else {
        reveal(Seq::filter);
    }
}

/// The last worktree counts for its own word alone.
proof fn lemma_count_last(entries: Seq<EntryView>, label: Seq<char>)
    requires
        entries.len() > 0,
    ensures
        ({
            let own = entries.last().class.label() == label;
            count_of(entries, label) == count_of(entries.drop_last(), label) + (if own {
                1nat
            } else {
                0nat
            })
        }),
{
    reveal(Seq::filter);
}

/// The words can be told apart by their length and their first character.
proof fn lemma_labels_differ()
    ensures
        "primary"@.len() == 7 && "primary"@[0] == 'p',
        "current"@.len() == 7 && "current"@[0] == 'c',
        "locked"@.len() == 6 && "locked"@[0] == 'l',
        "merged"@.len() == 6 && "merged"@[0] == 'm',
        "prunable"@.len() == 8 && "prunable"@[0] == 'p',
        "detached"@.len() == 8 && "detached"@[0] == 'd',
        "dirty"@.len() == 5,
        "not-merged"@.len() == 10,
{
    reveal_strlit("primary");
    reveal_strlit("current");
    reveal_strlit("locked");
    reveal_strlit("merged");
    reveal_strlit("prunable");
    reveal_strlit("detached");
    reveal_strlit("dirty");
    reveal_strlit("not-merged");
}

} // verus!
