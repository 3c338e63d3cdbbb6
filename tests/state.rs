use git_repository::state::{in_progress_operation, InProgress, Markers};

fn markers() -> Markers {
    Markers::none()
}

#[test]
fn cherry_pick() {
    let m = Markers { cherry_pick_head: true, ..markers() };
    assert_eq!(in_progress_operation(&m), Some(InProgress::CherryPick));
}

#[test]
fn rebase_interactive() {
    let m = Markers { rebase_merge_dir: true, rebase_interactive: true, ..markers() };
    assert_eq!(in_progress_operation(&m), Some(InProgress::RebaseInteractive));
}

#[test]
fn revert() {
    let m = Markers { revert_head: true, ..markers() };
    assert_eq!(in_progress_operation(&m), Some(InProgress::Revert));
}

#[test]
fn no_markers_means_no_operation() {
    assert_eq!(in_progress_operation(&markers()), None);
}

#[test]
fn interactive_rebase_wins_over_merge_head() {
    let m = Markers { rebase_merge_dir: true, rebase_interactive: true, merge_head: true, ..markers() };
    assert_eq!(in_progress_operation(&m), Some(InProgress::RebaseInteractive));
}

#[test]
fn plain_rebase_without_interactive_marker() {
    let m = Markers { rebase_merge_dir: true, cherry_pick_head: true, ..markers() };
    assert_eq!(in_progress_operation(&m), Some(InProgress::Rebase));
}

#[test]
fn priority_order_of_head_markers() {
    let all = Markers { cherry_pick_head: true, revert_head: true, merge_head: true, bisect_log: true, ..markers() };
    assert_eq!(in_progress_operation(&all), Some(InProgress::CherryPick));
    let m = Markers { revert_head: true, merge_head: true, bisect_log: true, ..markers() };
    assert_eq!(in_progress_operation(&m), Some(InProgress::Revert));
    let m = Markers { merge_head: true, bisect_log: true, ..markers() };
    assert_eq!(in_progress_operation(&m), Some(InProgress::Merge));
    let m = Markers { bisect_log: true, ..markers() };
    assert_eq!(in_progress_operation(&m), Some(InProgress::Bisect));
}

#[test]
fn removing_markers_between_calls_gives_none() {
    let m = Markers { cherry_pick_head: true, ..markers() };
    assert_eq!(in_progress_operation(&m), Some(InProgress::CherryPick));
    assert_eq!(in_progress_operation(&m), Some(InProgress::CherryPick));
    let cleared = Markers::none();
    assert_eq!(in_progress_operation(&cleared), None);
}
