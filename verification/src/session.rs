//! The interactive session: what the picker's answer means, and what is to
//! be done about it.

use vstd::prelude::*;
use vstd::string::StringExecFns;
use crate::branch::{catalog_of, get_choices, BranchInfo, BranchRecord, BranchType, FoundBranch};
use crate::config::Config;
use crate::options::{assembled, choices, current_view, get_branch_options, Choice, ChoiceView};
use crate::rank::{get_sorted_choices, ranked, windowed};

verus! {

/// Why an interactive session ended without switching branches.
#[derive(Debug, Clone, Copy, PartialEq, Eq, Structural)]
pub enum SelectBranchError {
    /// The user dismissed the picker, or chose to stay on the current branch.
    Aborted,
    /// The session was cancelled from outside while the picker was open.
    Interrupted,
}

impl SelectBranchError {
    /// The text that describes the error.
    pub open spec fn spec_message(self) -> Seq<char> {
        match self {
            SelectBranchError::Aborted => "Interaction aborted"@,
            SelectBranchError::Interrupted => "Interaction interrupted"@,
        }
    }

    /// The exit code of a process that ends on the error.
    pub open spec fn spec_exit_code(self) -> int {
        match self {
            SelectBranchError::Aborted => 1,
            SelectBranchError::Interrupted => 2,
        }
    }

    /// The text that describes the error.
    pub fn message(&self) -> (text: String)
        ensures
            text@ == self.spec_message(),
    {
        match self {
            SelectBranchError::Aborted => String::from_str("Interaction aborted"),
            SelectBranchError::Interrupted => String::from_str("Interaction interrupted"),
        }
    }

    /// Whether the terminal's cursor has to be made visible again before
    /// the session ends on the error: the picker hides it and, interrupted,
    /// does not bring it back.
    pub fn restores_cursor(&self) -> (restore: bool)
        ensures
            restore == (*self == SelectBranchError::Interrupted),
    {
        match self {
            SelectBranchError::Aborted => false,
            SelectBranchError::Interrupted => true,
        }
    }

    /// The exit code of a process that ends on the error: 1 where the user
    /// chose nothing, 2 where the session was interrupted.
    pub fn exit_code(&self) -> (code: i32)
        ensures
            code == self.spec_exit_code(),
            code != 0,
    {
        match self {
            SelectBranchError::Aborted => 1,
            SelectBranchError::Interrupted => 2,
        }
    }
}

/// The picker that a session shows.
#[derive(Debug, Clone, Copy, PartialEq, Eq, Structural)]
pub enum Picker {
    /// A list that is narrowed down by fuzzy matching on what is typed.
    Fuzzy,
    /// A plain list.
    Exact,
}

/// The picker that the settings ask for.
pub fn picker(config: &Config) -> (picker: Picker)
    ensures
        picker == if config.fuzzy {
            Picker::Fuzzy
        } else {
            Picker::Exact
        },
{
    if config.fuzzy {
        Picker::Fuzzy
    } else {
        Picker::Exact
    }
}

/// Why the picker returned without an answer.
#[derive(Debug, Clone, Copy, PartialEq, Eq, Structural)]
pub enum PromptFailure {
    /// The prompt was interrupted from outside.
    Interrupted,
    /// Any other failure of the terminal.
    Other,
}

/// How the interactive step ended.
#[derive(Debug, Clone, Copy, PartialEq, Eq, Structural)]
pub enum SelectionOutcome {
    /// The user picked the option at this index.
    Chosen(usize),
    /// The user dismissed the picker without picking.
    NoneChosen,
    /// The session was cancelled from outside.
    Interrupted,
}

/// The picker failed for a reason other than an interruption.
#[derive(Debug, Clone, Copy, PartialEq, Eq, Structural)]
pub struct PromptError;

/// Reads the picker's answer. An index is a choice, no index is a dismissal,
/// an interruption is an interruption, and any other failure is an error:
/// no two of the four are ever taken for one another.
pub fn run_selection(answer: Result<Option<usize>, PromptFailure>) -> (r: Result<
    SelectionOutcome,
    PromptError,
>)
    ensures
        r == match answer {
            Ok(Some(index)) => Ok::<SelectionOutcome, PromptError>(SelectionOutcome::Chosen(index)),
            Ok(None) => Ok(SelectionOutcome::NoneChosen),
            Err(PromptFailure::Interrupted) => Ok(SelectionOutcome::Interrupted),
            Err(PromptFailure::Other) => Err(PromptError),
        },
{
    match answer {
        Ok(Some(index)) => Ok(SelectionOutcome::Chosen(index)),
        Ok(None) => Ok(SelectionOutcome::NoneChosen),
        Err(PromptFailure::Interrupted) => Ok(SelectionOutcome::Interrupted),
        Err(PromptFailure::Other) => Err(PromptError),
    }
}

/// What an outcome asks for, given the options that were shown: the branch
/// to switch to, or the reason why there is none.
pub open spec fn dispatched(options: Seq<ChoiceView>, outcome: SelectionOutcome) -> Result<
    BranchRecord,
    SelectBranchError,
> {
    match outcome {
        SelectionOutcome::Chosen(index) => match options[index as int] {
            ChoiceView::Branch(record) => Ok(record),
            ChoiceView::Default(_) => Err(SelectBranchError::Aborted),
        },
        SelectionOutcome::NoneChosen => Err(SelectBranchError::Aborted),
        SelectionOutcome::Interrupted => Err(SelectBranchError::Interrupted),
    }
}

/// Decides what to do after the interactive step. A chosen branch is to be
/// checked out; the sentinel, chosen, means to stay, as a dismissal does;
/// an interruption is passed on.
pub fn dispatch(options: &Vec<Choice>, outcome: SelectionOutcome) -> (r: Result<
    BranchInfo,
    SelectBranchError,
>)
    requires
        outcome matches SelectionOutcome::Chosen(index) ==> index < options@.len(),
    ensures
        match r {
            Ok(branch_info) => dispatched(choices(options@), outcome) == Ok::<
                BranchRecord,
                SelectBranchError,
            >(branch_info@),
            Err(error) => dispatched(choices(options@), outcome) == Err::<
                BranchRecord,
                SelectBranchError,
            >(error),
        },
{
    match outcome {
        SelectionOutcome::Chosen(index) => match &options[index] {
            Choice::Branch(branch_info) => Ok(branch_info.clone()),
            Choice::Default(_) => Err(SelectBranchError::Aborted),
        },
        SelectionOutcome::NoneChosen => Err(SelectBranchError::Aborted),
        SelectionOutcome::Interrupted => Err(SelectBranchError::Interrupted),
    }
}

/// What follows the interactive step.
#[derive(Debug, PartialEq, Eq)]
pub enum NextStep {
    /// Switch to this branch.
    Checkout(BranchInfo),
    /// End the session without switching, for this reason.
    Stop(SelectBranchError),
    /// The picker failed: end the session with its error.
    Fail(PromptError),
}

/// The mathematical content of a [`NextStep`].
pub ghost enum NextStepView {
    Checkout(BranchRecord),
    Stop(SelectBranchError),
    Fail(PromptError),
}

impl View for NextStep {
    type V = NextStepView;

    open spec fn view(&self) -> NextStepView {
        match self {
            NextStep::Checkout(branch_info) => NextStepView::Checkout(branch_info@),
            NextStep::Stop(error) => NextStepView::Stop(*error),
            NextStep::Fail(error) => NextStepView::Fail(*error),
        }
    }
}

/// What follows an answer of the picker, given the options that were shown.
pub open spec fn step_after(
    options: Seq<ChoiceView>,
    answer: Result<Option<usize>, PromptFailure>,
) -> NextStepView {
    match answer {
        Ok(Some(index)) => match options[index as int] {
            ChoiceView::Branch(record) => NextStepView::Checkout(record),
            ChoiceView::Default(_) => NextStepView::Stop(SelectBranchError::Aborted),
        },
        Ok(None) => NextStepView::Stop(SelectBranchError::Aborted),
        Err(PromptFailure::Interrupted) => NextStepView::Stop(SelectBranchError::Interrupted),
        Err(PromptFailure::Other) => NextStepView::Fail(PromptError),
    }
}

/// The options of a session: the catalog of the listing, ranked, windowed
/// by the configured limit, with the current branch pinned first.
pub fn session_options(
    config: &Config,
    found: &Vec<Option<FoundBranch>>,
    current_branch: Option<&str>,
) -> (options: Vec<Choice>)
    ensures
        choices(options@) == assembled(
            windowed(ranked(catalog_of(found@)), config.limit),
            current_view(current_branch),
        ),
        options@.len() >= 1,
{
    let sorted_choices = get_sorted_choices(config, get_choices(found));
    let options = get_branch_options(sorted_choices, current_branch);
    assert(choices(options@).len() >= 1);
    options
}

/// Decides what follows the interactive step: reads the picker's answer
/// and, where an option was chosen, looks it up among those shown.
pub fn next_step(options: &Vec<Choice>, answer: Result<Option<usize>, PromptFailure>) -> (step:
    NextStep)
    requires
        answer matches Ok(Some(index)) ==> index < options@.len(),
    ensures
        step@ == step_after(choices(options@), answer),
{
    match run_selection(answer) {
        Ok(outcome) => match dispatch(options, outcome) {
            Ok(branch_info) => NextStep::Checkout(branch_info),
            Err(error) => NextStep::Stop(error),
        },
        Err(error) => NextStep::Fail(error),
    }
}

/// The namespace of references that holds the branches of a kind.
pub open spec fn ref_namespace(branch_type: BranchType) -> Seq<char> {
    match branch_type {
        BranchType::Local => "refs/heads/"@,
        BranchType::Remote => "refs/remotes/"@,
    }
}

/// The fully qualified name of the reference to check out for a branch: its
/// shorthand, which holds the remote's name where there is one, under the
/// namespace of its kind.
pub fn checkout_ref(branch_info: &BranchInfo) -> (ref_name: String)
    ensures
        ref_name@ == ref_namespace(branch_info.branch_type) + branch_info.shorthand@,
{
    let namespace = match branch_info.branch_type {
        BranchType::Local => String::from_str("refs/heads/"),
        BranchType::Remote => String::from_str("refs/remotes/"),
    };
    namespace.concat(branch_info.shorthand.as_str())
}

} // verus!
