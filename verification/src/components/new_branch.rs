//! The box in which the base of a new branch is picked.

use crate::components::span::{raw_span, Span, SpanV};
use crate::display::{sanitize, sanitized};
use crate::screens::new_branch::BaseBranchSelection;
use crate::state::{Mode, ModeV};
use crate::text::{concat3, decimal, decimal_text};
use vstd::prelude::*;
use vstd::string::*;

verus! {

/// What the box is called; nothing where no branch is being made.
pub open spec fn popup_title_of(mode: ModeV) -> Option<Seq<char>> {
    match mode {
        ModeV::ValidatingNewBranch { name, .. } => Some(
            " New branch \""@ + sanitized(name) + "\" "@,
        ),
        ModeV::SelectBaseBranch { flow, .. } => Some(
            " New branch \""@ + sanitized(flow.new_name) + "\" — pick base "@,
        ),
        _ => None,
    }
}

/// What the box is called.
pub fn popup_title(mode: &Mode) -> (title: Option<String>)
    ensures
        title.deep_view() == popup_title_of(mode.deep_view()),
{
    match mode {
        Mode::ValidatingNewBranch { name, .. } => Some(
            concat3(" New branch \"", sanitize(name.as_str()).as_str(), "\" "),
        ),
        Mode::SelectBaseBranch { flow, .. } => Some(
            concat3(
                " New branch \"",
                sanitize(flow.new_name.as_str()).as_str(),
                "\" — pick base ",
            ),
        ),
        _ => None,
    }
}

/// The rows of the bases that match.
pub open spec fn base_rows_of(bases: Seq<Seq<char>>, shown: Seq<(usize, i64)>) -> Seq<SpanV>
    decreases shown.len(),
{
    if shown.len() == 0 {
        Seq::empty()
    } else {
        let before = base_rows_of(bases, shown.drop_last());
        let index = shown.last().0;
        if index < bases.len() {
            before.push(raw_span(sanitized(bases[index as int])))
        } else {
            before
        }
    }
}

/// The rows of the bases that match.
pub fn base_rows(flow: &BaseBranchSelection) -> (rows: Vec<Span>)
    ensures
        rows.deep_view() == base_rows_of(
            flow.deep_view().bases,
            flow.deep_view().list.filtered,
        ),
{
    let ghost bases = flow.deep_view().bases;
    let ghost shown = flow.deep_view().list.filtered;
    let mut rows: Vec<Span> = Vec::new();
    let mut i: usize = 0;
    assert(rows.deep_view() =~= base_rows_of(bases, shown.take(0)));
    while i < flow.list.filtered.len()
        invariant
            i <= flow.list.filtered.len(),
            bases == flow.deep_view().bases,
            shown == flow.deep_view().list.filtered,
            rows.deep_view() == base_rows_of(bases, shown.take(i as int)),
        decreases flow.list.filtered.len() - i,
    {
        assert(shown.take(i + 1).drop_last() =~= shown.take(i as int));
        let index: usize = flow.list.filtered[i].0;
        if index < flow.bases.len() {
            let ghost before = rows.deep_view();
            let row = Span::raw(sanitize(flow.bases[index].as_str()));
            let ghost added = row.deep_view();
            assert(added == raw_span(sanitized(bases[index as int])));
            rows.push(row);
            assert(rows.deep_view() =~= before.push(added));
        }
        i = i + 1;
    }
    assert(shown.take(i as int) =~= shown);
    rows
}

/// What the list of bases is called.
pub fn base_list_title(flow: &BaseBranchSelection) -> (title: String)
    ensures
        title@ == " "@ + decimal(flow.deep_view().list.filtered.len()) + " bases "@,
{
    let count = decimal_text(flow.list.filtered.len() as u64);
    concat3(" ", count.as_str(), " bases ")
}

} // verus!
