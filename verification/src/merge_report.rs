//! The report of a merge as JSON.

use vstd::prelude::*;
use crate::json::{
    Fields, Json, boolean, json_of, new_map, object, pretty_text, put, render, string,
};
use crate::merge_end::{EndView, MergeEnd, MergeReport, ReportView};

verus! {

/// The report as a JSON document.
pub open spec fn report_json(report: ReportView) -> Json {
    Json::Object(
        Fields::empty().insert("branch"@, Json::Text(report.branch)).insert(
            "target"@,
            Json::Text(report.target),
        ).insert("committed"@, Json::Bool(report.committed)).insert(
            "squashed"@,
            Json::Bool(report.squashed),
        ).insert("rebased"@, Json::Bool(report.rebased)).insert(
            "removed"@,
            Json::Bool(report.removed),
        ),
    )
}

/// The report as a JSON document.
pub fn report_document(report: &MergeReport) -> (r: serde_json::Value)
    ensures
        json_of(r) == report_json(report@),
{
    let mut fields = new_map();
    put(&mut fields, "branch", string(report.branch.as_str()));
    put(&mut fields, "target", string(report.target.as_str()));
    put(&mut fields, "committed", boolean(report.committed));
    put(&mut fields, "squashed", boolean(report.squashed));
    put(&mut fields, "rebased", boolean(report.rebased));
    put(&mut fields, "removed", boolean(report.removed));
    object(fields)
}

/// What a merge that ended well prints on standard output: the report, where
/// JSON was asked for and something was merged.
pub open spec fn printed(end: EndView) -> Option<Json> {
    match end {
        EndView::Merged(report) => if report.json {
            Some(report_json(report))
        } else {
            None
        },
        EndView::Draft { .. } => None,
    }
}

/// What a merge that ended well prints on standard output.
pub fn output_of(end: &MergeEnd) -> (r: Option<String>)
    ensures
        match (r, printed(end@)) {
            (Some(text), Some(document)) => text@ == pretty_text(document),
            (None, None) => true,
            _ => false,
        },
{
    match end {
        MergeEnd::Merged(report) => if report.json {
            Some(render(&report_document(report)))
        } else {
            None
        },
        MergeEnd::Draft { .. } => None,
    }
}

/// The report has six fields, each with what it says.
pub proof fn the_fields_of_the_report(report: ReportView)
    ensures
        ({
            let fields = report_json(report)->Object_0;
            &&& fields.dom() == set![
                "branch"@,
                "target"@,
                "committed"@,
                "squashed"@,
                "rebased"@,
                "removed"@,
            ]
            &&& fields["branch"@] == Json::Text(report.branch)
            &&& fields["target"@] == Json::Text(report.target)
            &&& fields["committed"@] == Json::Bool(report.committed)
            &&& fields["squashed"@] == Json::Bool(report.squashed)
            &&& fields["rebased"@] == Json::Bool(report.rebased)
            &&& fields["removed"@] == Json::Bool(report.removed)
        }),
{
    reveal_strlit("branch");
    reveal_strlit("target");
    reveal_strlit("committed");
    reveal_strlit("squashed");
    reveal_strlit("rebased");
    reveal_strlit("removed");
    assert("branch"@[0] != "target"@[0]);
    assert("rebased"@[2] != "removed"@[2]);
    assert("branch"@.len() == 6);
    assert("target"@.len() == 6);
    assert("rebased"@.len() == 7);
    assert("removed"@.len() == 7);
    assert("squashed"@.len() == 8);
    assert("committed"@.len() == 9);
    let fields = report_json(report)->Object_0;
    assert(fields.dom() =~= set![
        "branch"@,
        "target"@,
        "committed"@,
        "squashed"@,
        "rebased"@,
        "removed"@,
    ]);
}

} // verus!
