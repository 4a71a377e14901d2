//! A plan is carried out item by item, in order. What is done about an item
//! depends on its action, on whether the pass is a dry run, and on whether
//! the local file is there; the report counts the items by action.

use vstd::prelude::*;
use vstd::string::*;
use crate::hashing::{content_hash, hash_bytes};
use crate::service::sync::SyncAction;

verus! {

/// A file of the local directory: its path relative to the directory, with
/// `/` between its parts, the hash of its content and its size.
#[derive(Debug, PartialEq, Eq)]
pub struct LocalFile {
    pub path: String,
    pub hash: String,
    pub size: u64,
}

/// One item of a plan as the server sends it.
#[derive(Debug, PartialEq, Eq)]
pub struct SyncPlanItem {
    pub file_id: String,
    pub path: String,
    pub action: String,
}

/// How many items of a plan were uploaded, downloaded, deleted and skipped.
#[derive(Debug, Clone, Copy, PartialEq, Eq, Structural)]
pub struct SyncReport {
    pub uploaded: usize,
    pub downloaded: usize,
    pub deleted: usize,
    pub skipped: usize,
}

impl Default for SyncReport {
    fn default() -> (report: Self)
        ensures
            report == (SyncReport { uploaded: 0, downloaded: 0, deleted: 0, skipped: 0 }),
    {
        SyncReport { uploaded: 0, downloaded: 0, deleted: 0, skipped: 0 }
    }
}

/// What is to be done on the local side for one item of a plan.
#[derive(Debug, Clone, Copy, PartialEq, Eq, Structural)]
pub enum Step {
    /// Read the local file and send it.
    Upload,
    /// Fetch the file and write it, making its directory first.
    Download,
    /// Remove the local file or directory.
    Remove,
    /// Do nothing.
    Nothing,
}

/// A path with every backslash replaced by a slash.
pub open spec fn slashed(path: Seq<char>) -> Seq<char> {
    Seq::new(
        path.len(),
        |i: int|
            if path[i] == '\\' {
                '/'
            } else {
                path[i]
            },
    )
}

/// Replaces every backslash of a path by a slash.
pub fn with_slashes(path: &str) -> (r: String)
    ensures
        r@ == slashed(path@),
{
    let n: usize = path.unicode_len();
    let mut r = String::new();
    let mut i: usize = 0;
    while i < n
        invariant
            n == path@.len(),
            i <= n,
            r@ == slashed(path@).take(i as int),
        decreases n - i,
    {
        let c = path.get_char(i);
        if c == '\\' {
            proof {
                reveal_strlit("/");
            }
            r.append("/");
        } else {
            r.append(path.substring_char(i, i + 1));
        }
        assert(r@ =~= slashed(path@).take(i + 1));
        i = i + 1;
    }
    assert(slashed(path@).take(n as int) =~= slashed(path@));
    r
}

impl LocalFile {
    /// Describes a local file by its relative path and its content.
    pub fn describe(relative: &str, content: &[u8]) -> (file: LocalFile)
        ensures
            file.path@ == slashed(relative@),
            file.hash@ == content_hash(content@),
            file.size == content@.len(),
    {
        LocalFile {
            path: with_slashes(relative),
            hash: hash_bytes(content),
            size: content.len() as u64,
        }
    }
}

/// The action that a word of a plan names; a word that names none is
/// passed over.
pub open spec fn action_named(word: Seq<char>) -> Option<SyncAction> {
    if word == "upload"@ {
        Some(SyncAction::Upload)
    } else if word == "download"@ {
        Some(SyncAction::Download)
    } else if word == "delete"@ {
        Some(SyncAction::Delete)
    } else if word == "skip"@ {
        Some(SyncAction::Skip)
    } else {
        None
    }
}

/// The word that names an action in a plan.
pub open spec fn word_of(action: SyncAction) -> Seq<char> {
    match action {
        SyncAction::Upload => "upload"@,
        SyncAction::Download => "download"@,
        SyncAction::Delete => "delete"@,
        SyncAction::Skip => "skip"@,
    }
}

/// Reads the action of a plan item.
pub fn action_of(word: &str) -> (action: Option<SyncAction>)
    ensures
        action == action_named(word@),
{
    let word = word.to_owned();
    if word == String::from_str("upload") {
        Some(SyncAction::Upload)
    } else if word == String::from_str("download") {
        Some(SyncAction::Download)
    } else if word == String::from_str("delete") {
        Some(SyncAction::Delete)
    } else if word == String::from_str("skip") {
        Some(SyncAction::Skip)
    } else {
        None
    }
}

/// Writes an action as the word that names it in a plan.
pub fn word_for(action: SyncAction) -> (word: &'static str)
    ensures
        word@ == word_of(action),
{
    match action {
        SyncAction::Upload => "upload",
        SyncAction::Download => "download",
        SyncAction::Delete => "delete",
        SyncAction::Skip => "skip",
    }
}

/// Reading the word of an action gives the action back.
pub proof fn lemma_word_names_its_action(action: SyncAction)
    ensures
        action_named(word_of(action)) == Some(action),
{
    reveal_strlit("upload");
    reveal_strlit("download");
    reveal_strlit("delete");
    reveal_strlit("skip");
    assert("upload"@.len() == 6);
    assert("download"@.len() == 8);
    assert("delete"@[0] == 'd' && "download"@[1] == 'o' && "delete"@[1] == 'e');
    assert("skip"@.len() == 4);
}

/// What is to be done for an item. In a dry run nothing is done. Otherwise a
/// file is uploaded if it is there, downloaded in any case, and removed if
/// it is there; a skipped item and one with an unknown action need nothing.
pub open spec fn step_of(action: Option<SyncAction>, dry_run: bool, local_present: bool) -> Step {
    if dry_run {
        Step::Nothing
    } else {
        match action {
            Some(SyncAction::Upload) => if local_present {
                Step::Upload
            } else {
                Step::Nothing
            },
            Some(SyncAction::Download) => Step::Download,
            Some(SyncAction::Delete) => if local_present {
                Step::Remove
            } else {
                Step::Nothing
            },
            Some(SyncAction::Skip) => Step::Nothing,
            None => Step::Nothing,
        }
    }
}

/// Whether an item counts in the report under `counted`: it does if that is
/// its action, except that an upload of a file that is not there counts
/// only in a dry run.
pub open spec fn counts_as(
    action: Option<SyncAction>,
    dry_run: bool,
    local_present: bool,
    counted: SyncAction,
) -> bool {
    action == Some(counted) && (counted == SyncAction::Upload ==> dry_run || local_present)
}

/// How many of the items count in the report under `counted`, where
/// `present` tells for each item whether its local file is there.
pub open spec fn count_of(
    items: Seq<SyncPlanItem>,
    present: Seq<bool>,
    dry_run: bool,
    counted: SyncAction,
) -> nat
    decreases items.len(),
{
    if items.len() == 0 || present.len() != items.len() {
        0
    } else {
        count_of(items.drop_last(), present.drop_last(), dry_run, counted) + if counts_as(
            action_named(items.last().action@),
            dry_run,
            present.last(),
            counted,
        ) {
            1nat
        } else {
            0nat
        }
    }
}

/// No action counts more items than there are.
pub proof fn lemma_counts_are_bounded(items: Seq<SyncPlanItem>, present: Seq<bool>, dry_run: bool)
    requires
        present.len() == items.len(),
    ensures
        count_of(items, present, dry_run, SyncAction::Upload) + count_of(
            items,
            present,
            dry_run,
            SyncAction::Download,
        ) + count_of(items, present, dry_run, SyncAction::Delete) + count_of(
            items,
            present,
            dry_run,
            SyncAction::Skip,
        ) <= items.len(),
    decreases items.len(),
{
    if items.len() > 0 {
        lemma_counts_are_bounded(items.drop_last(), present.drop_last(), dry_run);
    }
}

/// Decides what is to be done for one item of a plan.
pub fn step_for(item: &SyncPlanItem, dry_run: bool, local_present: bool) -> (step: Step)
    ensures
        step == step_of(action_named(item.action@), dry_run, local_present),
{
    if dry_run {
        return Step::Nothing;
    }
    match action_of(item.action.as_str()) {
        Some(SyncAction::Upload) => if local_present {
            Step::Upload
        } else {
            Step::Nothing
        },
        Some(SyncAction::Download) => Step::Download,
        Some(SyncAction::Delete) => if local_present {
            Step::Remove
        } else {
            Step::Nothing
        },
        Some(SyncAction::Skip) => Step::Nothing,
        None => Step::Nothing,
    }
}

/// The report of a pass that went through the whole plan, where `present`
/// tells for each item whether its local file was there.
pub fn tally(items: &Vec<SyncPlanItem>, present: &Vec<bool>, dry_run: bool) -> (report: SyncReport)
    requires
        present@.len() == items@.len(),
    ensures
        report.uploaded == count_of(items@, present@, dry_run, SyncAction::Upload),
        report.downloaded == count_of(items@, present@, dry_run, SyncAction::Download),
        report.deleted == count_of(items@, present@, dry_run, SyncAction::Delete),
        report.skipped == count_of(items@, present@, dry_run, SyncAction::Skip),
{
    let mut report = SyncReport { uploaded: 0, downloaded: 0, deleted: 0, skipped: 0 };
    let mut i: usize = 0;
    assert(items@.take(0) =~= Seq::<SyncPlanItem>::empty());
    while i < items.len()
        invariant
            present@.len() == items@.len(),
            i <= items@.len(),
            report.uploaded == count_of(
                items@.take(i as int),
                present@.take(i as int),
                dry_run,
                SyncAction::Upload,
            ),
            report.downloaded == count_of(
                items@.take(i as int),
                present@.take(i as int),
                dry_run,
                SyncAction::Download,
            ),
            report.deleted == count_of(
                items@.take(i as int),
                present@.take(i as int),
                dry_run,
                SyncAction::Delete,
            ),
            report.skipped == count_of(
                items@.take(i as int),
                present@.take(i as int),
                dry_run,
                SyncAction::Skip,
            ),
        decreases items@.len() - i,
    {
        proof {
            lemma_counts_are_bounded(items@.take(i as int), present@.take(i as int), dry_run);
            assert(items@.take(i + 1).drop_last() =~= items@.take(i as int));
            assert(present@.take(i + 1).drop_last() =~= present@.take(i as int));
            assert(items@.take(i + 1).last() == items@[i as int]);
            assert(present@.take(i + 1).last() == present@[i as int]);
        }
        match action_of(items[i].action.as_str()) {
            Some(SyncAction::Upload) => {
                if dry_run || present[i] {
                    report.uploaded = report.uploaded + 1;
                }
            },
            Some(SyncAction::Download) => {
                report.downloaded = report.downloaded + 1;
            },
            Some(SyncAction::Delete) => {
                report.deleted = report.deleted + 1;
            },
            Some(SyncAction::Skip) => {
                report.skipped = report.skipped + 1;
            },
            None => {},
        }
        i = i + 1;
    }
    assert(items@.take(i as int) =~= items@);
    assert(present@.take(i as int) =~= present@);
    report
}

} // verus!
