//! The list of options shown to the user: the current branch first, then the
//! ranked branches other than the current one.

use vstd::prelude::*;
use vstd::std_specs::convert::FromSpecImpl;
use vstd::string::StringExecFns;
use crate::branch::{catalog, BranchInfo, BranchRecord};

verus! {

/// One entry of the picker.
#[derive(Debug, PartialEq, Eq)]
pub enum Choice {
    /// The entry that changes nothing. Its label is the current branch's
    /// shorthand, or a placeholder where there is no current branch.
    Default(String),
    /// A branch to switch to.
    Branch(BranchInfo),
}

/// The mathematical content of a [`Choice`].
pub ghost enum ChoiceView {
    Default(Seq<char>),
    Branch(BranchRecord),
}

impl View for Choice {
    type V = ChoiceView;

    open spec fn view(&self) -> ChoiceView {
        match self {
            Choice::Default(label) => ChoiceView::Default(label@),
            Choice::Branch(branch_info) => ChoiceView::Branch(branch_info@),
        }
    }
}

impl ChoiceView {
    /// The text under which the entry is shown.
    pub open spec fn label(self) -> Seq<char> {
        match self {
            ChoiceView::Default(label) => label,
            ChoiceView::Branch(record) => record.shorthand,
        }
    }
}

impl Clone for Choice {
    fn clone(&self) -> (r: Self)
        ensures
            r == *self,
    {
        match self {
            Choice::Default(label) => Choice::Default(label.clone()),
            Choice::Branch(branch_info) => Choice::Branch(branch_info.clone()),
        }
    }
}

impl FromSpecImpl<BranchInfo> for Choice {
    open spec fn obeys_from_spec() -> bool {
        true
    }

    open spec fn from_spec(value: BranchInfo) -> Choice {
        Choice::Branch(value)
    }
}

impl From<BranchInfo> for Choice {
    fn from(value: BranchInfo) -> (choice: Choice) {
        Choice::Branch(value)
    }
}

impl Choice {
    /// The text under which the entry is shown.
    pub fn label(&self) -> (text: String)
        ensures
            text@ == self@.label(),
    {
        match self {
            Choice::Default(label) => label.clone(),
            Choice::Branch(branch_info) => branch_info.shorthand.clone(),
        }
    }
}

/// The contents of a list of options, in the same order.
pub open spec fn choices(options: Seq<Choice>) -> Seq<ChoiceView> {
    options.map_values(|c: Choice| c@)
}

/// The label of the first entry where there is no current branch.
pub open spec fn no_branch_label() -> Seq<char> {
    "<no branch>"@
}

/// The characters of the current branch's name, where there is one.
pub open spec fn current_view(current_branch: Option<&str>) -> Option<Seq<char>> {
    match current_branch {
        Some(name) => Some(name@),
        None => None,
    }
}

/// The label of the first entry.
pub open spec fn sentinel_label(current: Option<Seq<char>>) -> Seq<char> {
    match current {
        Some(name) => name,
        None => no_branch_label(),
    }
}

/// The records that do not bear the current branch's name, in order.
pub open spec fn others(records: Seq<BranchRecord>, current: Option<Seq<char>>) -> Seq<
    BranchRecord,
> {
    records.filter(|r: BranchRecord| current != Some(r.shorthand))
}

/// The option list for a ranking and a current branch: the sentinel, then
/// one entry for each record that is not the current branch.
pub open spec fn assembled(records: Seq<BranchRecord>, current: Option<Seq<char>>) -> Seq<
    ChoiceView,
> {
    seq![ChoiceView::Default(sentinel_label(current))] + others(records, current).map_values(
        |r: BranchRecord| ChoiceView::Branch(r),
    )
}

/// What one more record at the end of a ranking adds to the option list.
pub proof fn lemma_assembled_push(records: Seq<BranchRecord>, r: BranchRecord, current: Option<Seq<char>>)
    ensures
        assembled(records.push(r), current) == if current != Some(r.shorthand) {
            assembled(records, current).push(ChoiceView::Branch(r))
        } else {
            assembled(records, current)
        },
{
    records.lemma_filter_push(r, |r: BranchRecord| current != Some(r.shorthand));
    if current != Some(r.shorthand) {
        assert(others(records.push(r), current) == others(records, current).push(r));
        assert(assembled(records.push(r), current) =~= assembled(records, current).push(
            ChoiceView::Branch(r),
        ));
    }
}

/// Without a record only the sentinel is offered.
pub proof fn lemma_assembled_empty(current: Option<Seq<char>>)
    ensures
        assembled(Seq::empty(), current) == seq![ChoiceView::Default(sentinel_label(current))],
{
    reveal(Seq::filter);
    assert(others(Seq::empty(), current) =~= Seq::<BranchRecord>::empty());
    assert(assembled(Seq::empty(), current) =~= seq![ChoiceView::Default(sentinel_label(current))]);
}

/// The sentinel stands first and nowhere else: every later option is a
/// branch of the ranking, and none of them bears the current branch's name.
pub proof fn lemma_sentinel_pinned(records: Seq<BranchRecord>, current: Option<Seq<char>>)
    ensures
        assembled(records, current).len() >= 1,
        assembled(records, current)[0] == ChoiceView::Default(sentinel_label(current)),
        forall|i: int|
            1 <= i < assembled(records, current).len() ==> (#[trigger] assembled(records, current)[i]
                matches ChoiceView::Branch(r) && current != Some(r.shorthand) && records.contains(
                r,
            )),
{
    let pred = |r: BranchRecord| current != Some(r.shorthand);
    let rest = others(records, current);
    assert forall|i: int| 1 <= i < assembled(records, current).len() implies (
    #[trigger] assembled(records, current)[i] matches ChoiceView::Branch(r) && current != Some(
        r.shorthand,
    ) && records.contains(r)) by {
        assert(assembled(records, current)[i] == ChoiceView::Branch(rest[i - 1]));
        records.lemma_filter_pred(pred, i - 1);
        assert(rest.contains(rest[i - 1]));
        records.lemma_filter_contains_rev(pred, rest[i - 1]);
    }
}

/// Where there is no current branch, the first label is the placeholder and
/// every branch of the ranking is offered, in order.
pub proof fn lemma_no_current_branch(records: Seq<BranchRecord>)
    ensures
        assembled(records, None) == seq![ChoiceView::Default(no_branch_label())]
            + records.map_values(|r: BranchRecord| ChoiceView::Branch(r)),
        assembled(records, None).len() == records.len() + 1,
    decreases records.len(),
{
    lemma_others_without_current(records);
}

/// Where there is no current branch, no record is left out.
pub proof fn lemma_others_without_current(records: Seq<BranchRecord>)
    ensures
        others(records, None) == records,
    decreases records.len(),
{
    if records.len() == 0 {
        reveal(Seq::filter);
        assert(others(records, None) =~= records);
    } else {
        let front = records.drop_last();
        lemma_others_without_current(front);
        front.lemma_filter_push(records.last(), |r: BranchRecord| None::<Seq<char>> != Some(r.shorthand));
        assert(front.push(records.last()) =~= records);
    }
}

/// Builds the option list: the sentinel for the current branch first, then
/// the ranked branches without the current one, in their ranked order.
pub fn get_branch_options(sorted_branches: Vec<BranchInfo>, current_branch: Option<&str>) -> (options:
    Vec<Choice>)
    ensures
        choices(options@) == assembled(catalog(sorted_branches@), current_view(current_branch)),
{
    let ghost current = current_view(current_branch);
    let label = match current_branch {
        Some(branch) => String::from_str(branch),
        None => String::from_str("<no branch>"),
    };
    let mut options: Vec<Choice> = Vec::new();
    options.push(Choice::Default(label.clone()));
    let mut i: usize = 0;
    proof {
        lemma_assembled_empty(current);
        assert(catalog(sorted_branches@.take(0)) =~= Seq::<BranchRecord>::empty());
        assert(choices(options@) =~= seq![ChoiceView::Default(sentinel_label(current))]);
    }
    while i < sorted_branches.len()
        invariant
            i <= sorted_branches.len(),
            current == current_view(current_branch),
            current_branch is Some ==> label@ == current_branch->0@,
            choices(options@) == assembled(catalog(sorted_branches@.take(i as int)), current),
        decreases sorted_branches.len() - i,
    {
        let branch = &sorted_branches[i];
        let stays = match current_branch {
            Some(_) => !(branch.shorthand == label),
            None => true,
        };
        let ghost shown = choices(options@);
        proof {
            let before = catalog(sorted_branches@.take(i as int));
            assert(catalog(sorted_branches@.take(i + 1)) =~= before.push(branch@));
            lemma_assembled_push(before, branch@, current);
            assert(stays == (current != Some(branch@.shorthand)));
        }
        if stays {
            options.push(Choice::Branch(branch.clone()));
            assert(choices(options@) =~= shown.push(ChoiceView::Branch(branch@)));
        }
        i = i + 1;
    }
    assert(sorted_branches@.take(i as int) =~= sorted_branches@);
    options
}

} // verus!
