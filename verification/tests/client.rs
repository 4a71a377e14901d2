use rustcloud::client::paths::{base_url, default_server, local_name};
use rustcloud::client::sync::{action_of, step_for, tally, with_slashes, word_for};
use rustcloud::client::{LocalFile, Step, SyncPlanItem, SyncReport};
use rustcloud::service::sync::SyncAction;

fn item(path: &str, action: &str) -> SyncPlanItem {
    SyncPlanItem { file_id: "id".to_string(), path: path.to_string(), action: action.to_string() }
}

#[test]
fn words_name_actions() {
    assert_eq!(action_of("upload"), Some(SyncAction::Upload));
    assert_eq!(action_of("download"), Some(SyncAction::Download));
    assert_eq!(action_of("delete"), Some(SyncAction::Delete));
    assert_eq!(action_of("skip"), Some(SyncAction::Skip));
    assert_eq!(action_of("Upload"), None);
    assert_eq!(action_of(""), None);
    assert_eq!(action_of("skip "), None);
    for action in [SyncAction::Upload, SyncAction::Download, SyncAction::Delete, SyncAction::Skip] {
        assert_eq!(action_of(word_for(action)), Some(action));
    }
}

#[test]
fn a_dry_run_does_nothing() {
    for action in ["upload", "download", "delete", "skip", "other"] {
        for present in [false, true] {
            assert_eq!(step_for(&item("a", action), true, present), Step::Nothing);
        }
    }
}

#[test]
fn steps_of_a_real_run() {
    assert_eq!(step_for(&item("a", "upload"), false, true), Step::Upload);
    assert_eq!(step_for(&item("a", "upload"), false, false), Step::Nothing);
    assert_eq!(step_for(&item("a", "download"), false, true), Step::Download);
    assert_eq!(step_for(&item("a", "download"), false, false), Step::Download);
    assert_eq!(step_for(&item("a", "delete"), false, true), Step::Remove);
    assert_eq!(step_for(&item("a", "delete"), false, false), Step::Nothing);
    assert_eq!(step_for(&item("a", "skip"), false, true), Step::Nothing);
    assert_eq!(step_for(&item("a", "rename"), false, true), Step::Nothing);
}

#[test]
fn a_report_counts_the_items_by_action() {
    let plan = vec![
        item("a", "upload"),
        item("b", "upload"),
        item("c", "download"),
        item("d", "delete"),
        item("e", "delete"),
        item("f", "skip"),
        item("g", "unknown"),
        item("h", "download"),
        item("i", "download"),
    ];
    let present = vec![true, false, false, true, false, true, true, true, false];
    assert_eq!(
        tally(&plan, &present, false),
        SyncReport { uploaded: 1, downloaded: 3, deleted: 2, skipped: 1 }
    );
    assert_eq!(
        tally(&plan, &present, true),
        SyncReport { uploaded: 2, downloaded: 3, deleted: 2, skipped: 1 }
    );
    assert_eq!(tally(&vec![], &vec![], false), SyncReport::default());
    assert_eq!(SyncReport::default(), SyncReport { uploaded: 0, downloaded: 0, deleted: 0, skipped: 0 });
}

#[test]
fn local_files_are_described_with_slashes_and_their_hash() {
    let file = LocalFile::describe("docs\\2024\\a.txt", b"hello world");
    assert_eq!(file.path, "docs/2024/a.txt");
    assert_eq!(file.hash, "b94d27b9934d3e08a52e52d7da7dabfac484efe37a5380ee9088f7ace2efcde9");
    assert_eq!(file.size, 11);
    assert_eq!(with_slashes("a/b"), "a/b");
    assert_eq!(with_slashes("\\"), "/");
    assert_eq!(with_slashes(""), "");
    assert_eq!(with_slashes("é\\ü"), "é/ü");
}

#[test]
fn a_base_address_ends_without_slashes() {
    assert_eq!(base_url("http://127.0.0.1:3000/"), "http://127.0.0.1:3000");
    assert_eq!(base_url("http://host///"), "http://host");
    assert_eq!(base_url("http://host/api"), "http://host/api");
    assert_eq!(base_url("///"), "");
    assert_eq!(base_url(""), "");
    assert_eq!(default_server(), "http://127.0.0.1:3000");
}

#[test]
fn a_download_is_named_by_the_last_part_of_its_path() {
    assert_eq!(local_name("docs/2024/report.txt"), "report.txt");
    assert_eq!(local_name("report.txt"), "report.txt");
    assert_eq!(local_name("docs/"), "");
    assert_eq!(local_name("/a"), "a");
    assert_eq!(local_name(""), "");
    assert_eq!(local_name("ä/ö"), "ö");
}
