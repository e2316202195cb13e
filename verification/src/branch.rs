//! The branch catalog: what is known of each branch, and how raw listings
//! from a repository become catalog entries.

use vstd::prelude::*;
use crate::config::Config;

verus! {

/// Whether a branch lives in the repository itself or tracks a remote.
#[derive(Debug, Clone, Copy, PartialEq, Eq, Structural)]
pub enum BranchType {
    Local,
    Remote,
}

/// The moment of a commit: seconds since the epoch and the committer's
/// timezone offset in minutes.
#[derive(Debug, Clone, Copy, PartialEq, Eq, Structural)]
pub struct CommitTime {
    pub seconds: i64,
    pub offset_minutes: i32,
}

impl CommitTime {
    /// `self` is strictly more recent than `other`: later seconds first,
    /// and on equal seconds the larger offset.
    pub open spec fn after(self, other: CommitTime) -> bool {
        self.seconds > other.seconds || (self.seconds == other.seconds && self.offset_minutes
            > other.offset_minutes)
    }

    pub fn new(seconds: i64, offset_minutes: i32) -> (t: CommitTime)
        ensures
            t.seconds == seconds,
            t.offset_minutes == offset_minutes,
    {
        CommitTime { seconds, offset_minutes }
    }

    pub fn is_after(&self, other: &CommitTime) -> (r: bool)
        ensures
            r == self.after(*other),
    {
        self.seconds > other.seconds || (self.seconds == other.seconds && self.offset_minutes
            > other.offset_minutes)
    }
}

/// The mathematical content of a [`BranchInfo`].
pub ghost struct BranchRecord {
    pub shorthand: Seq<char>,
    pub branch_type: BranchType,
    pub commit_time: CommitTime,
    pub commit_message: Option<Seq<char>>,
    pub commit_author_name: Option<Seq<char>>,
}

/// The characters of an optional string.
pub open spec fn text_view(text: Option<String>) -> Option<Seq<char>> {
    match text {
        Some(s) => Some(s@),
        None => None,
    }
}

/// One branch of the catalog, with the metadata of its tip commit.
#[derive(Debug, PartialEq, Eq)]
pub struct BranchInfo {
    pub shorthand: String,
    pub branch_type: BranchType,
    pub commit_time: CommitTime,
    pub commit_message: Option<String>,
    pub commit_author_name: Option<String>,
}

impl View for BranchInfo {
    type V = BranchRecord;

    open spec fn view(&self) -> BranchRecord {
        BranchRecord {
            shorthand: self.shorthand@,
            branch_type: self.branch_type,
            commit_time: self.commit_time,
            commit_message: text_view(self.commit_message),
            commit_author_name: text_view(self.commit_author_name),
        }
    }
}

/// A copy of an optional string.
pub fn clone_text(text: &Option<String>) -> (r: Option<String>)
    ensures
        r == *text,
{
    match text {
        Some(s) => Some(s.clone()),
        None => None,
    }
}

impl Clone for BranchInfo {
    fn clone(&self) -> (r: Self)
        ensures
            r == *self,
    {
        BranchInfo {
            shorthand: self.shorthand.clone(),
            branch_type: self.branch_type,
            commit_time: self.commit_time,
            commit_message: clone_text(&self.commit_message),
            commit_author_name: clone_text(&self.commit_author_name),
        }
    }
}

/// The records of a sequence of catalog entries, in the same order.
pub open spec fn catalog(branches: Seq<BranchInfo>) -> Seq<BranchRecord> {
    branches.map_values(|b: BranchInfo| b@)
}

/// What is known of a tip commit.
#[derive(Debug, PartialEq, Eq)]
pub struct TipCommit {
    pub time: CommitTime,
    pub message: Option<String>,
    pub author_name: Option<String>,
}

/// One branch as a repository lists it, before it is known whether it can
/// be offered: its shorthand name, where one can be derived, and its tip
/// commit, where the branch resolves to one.
#[derive(Debug, PartialEq, Eq)]
pub struct FoundBranch {
    pub shorthand: Option<String>,
    pub branch_type: BranchType,
    pub tip: Option<TipCommit>,
}

/// The record of a listed branch, where it has both a shorthand name and a
/// tip commit. An entry that could not be read at all is `None` and has none.
pub open spec fn record_of(entry: Option<FoundBranch>) -> Option<BranchRecord> {
    match entry {
        Some(FoundBranch { shorthand: Some(name), branch_type, tip: Some(tip) }) => Some(
            BranchRecord {
                shorthand: name@,
                branch_type,
                commit_time: tip.time,
                commit_message: text_view(tip.message),
                commit_author_name: text_view(tip.author_name),
            },
        ),
        _ => None,
    }
}

/// The catalog of a listing: the records of the entries that have one, in
/// the order of the listing.
pub open spec fn catalog_of(found: Seq<Option<FoundBranch>>) -> Seq<BranchRecord> {
    found.filter_map(|entry: Option<FoundBranch>| record_of(entry))
}

/// Which kinds of branches a session lists: all of them where remote
/// branches are shown, the local ones otherwise.
pub fn branch_filter(config: &Config) -> (filter: Option<BranchType>)
    ensures
        filter == if config.show_remote_branches {
            None
        } else {
            Some(BranchType::Local)
        },
{
    if config.show_remote_branches {
        None
    } else {
        Some(BranchType::Local)
    }
}

/// The catalog entry of a listed branch, where it has both a shorthand name
/// and a tip commit.
pub fn get_choice(entry: &Option<FoundBranch>) -> (choice: Option<BranchInfo>)
    ensures
        match choice {
            Some(branch_info) => record_of(*entry) == Some(branch_info@),
            None => record_of(*entry) is None,
        },
{
    match entry {
        Some(found) => match (&found.shorthand, &found.tip) {
            (Some(shorthand), Some(tip)) => Some(
                BranchInfo {
                    shorthand: shorthand.clone(),
                    branch_type: found.branch_type,
                    commit_time: tip.time,
                    commit_message: clone_text(&tip.message),
                    commit_author_name: clone_text(&tip.author_name),
                },
            ),
            _ => None,
        },
        None => None,
    }
}

/// Builds the catalog from a listing. Entries without a shorthand name or
/// without a tip commit, and entries that could not be read, are left out;
/// the others keep the order of the listing.
pub fn get_choices(found: &Vec<Option<FoundBranch>>) -> (choices: Vec<BranchInfo>)
    ensures
        catalog(choices@) == catalog_of(found@),
{
    let mut choices: Vec<BranchInfo> = Vec::new();
    let mut i: usize = 0;
    assert(catalog(choices@) =~= catalog_of(found@.take(0)));
    while i < found.len()
        invariant
            i <= found.len(),
            catalog(choices@) == catalog_of(found@.take(i as int)),
        decreases found.len() - i,
    {
        let ghost before = catalog(choices@);
        proof {
            found@.lemma_filter_map_take_succ(|entry: Option<FoundBranch>| record_of(entry), i as int);
        }
        match get_choice(&found[i]) {
            Some(branch_info) => {
                choices.push(branch_info);
                assert(catalog(choices@) =~= before + seq![branch_info@]);
            },
            None => {},
        }
        i = i + 1;
    }
    assert(found@.take(i as int) =~= found@);
    choices
}

} // verus!
