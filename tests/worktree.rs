use git_repository::repository::{Config, ObjectHash, OpenError, Repository};
use git_repository::worktree::{LinkedCheckout, ReadDirError, WorktreeEntry};

fn repo(work_dir: Option<&str>, is_bare: bool) -> Repository {
    Repository {
        git_dir: b"/r/.git".to_vec(),
        common_dir: b"/r/.git".to_vec(),
        work_dir: work_dir.map(|w| w.as_bytes().to_vec()),
        config: Config { is_bare, index_threads: None },
        object_hash: ObjectHash::Sha1,
    }
}

fn entry(path: &str, has_gitdir_file: bool) -> WorktreeEntry {
    WorktreeEntry { path: path.as_bytes().to_vec(), has_gitdir_file }
}

#[test]
fn missing_worktrees_dir_is_empty() {
    let r = repo(Some("/r"), false);
    let list = r.worktrees(Err(ReadDirError::NotFound)).unwrap();
    assert!(list.is_empty());
}

#[test]
fn other_read_errors_are_handed_on() {
    let r = repo(Some("/r"), false);
    let err = ReadDirError::Other { message: "permission denied".to_string() };
    assert_eq!(r.worktrees(Err(err.clone())).unwrap_err(), err);
}

#[test]
fn listing_keeps_valid_entries_sorted() {
    let r = repo(Some("/r"), false);
    let entries = vec![
        entry("/r/.git/worktrees/zeta", true),
        entry("/r/.git/worktrees/pruned", false),
        entry("/r/.git/worktrees/alpha", true),
        entry("/r/.git/worktrees/a", true),
        entry("/r/.git/worktrees/broken", false),
        entry("/r/.git/worktrees/Beta", true),
    ];
    let list = r.worktrees(Ok(entries)).unwrap();
    let dirs: Vec<&[u8]> = list.iter().map(|p| p.git_dir.as_slice()).collect();
    assert_eq!(
        dirs,
        vec![
            b"/r/.git/worktrees/Beta".as_slice(),
            b"/r/.git/worktrees/a".as_slice(),
            b"/r/.git/worktrees/alpha".as_slice(),
            b"/r/.git/worktrees/zeta".as_slice(),
        ]
    );
    assert!(list.iter().all(|p| std::ptr::eq(p.parent, &r)));
}

#[test]
fn listing_twice_gives_the_same_order() {
    let r = repo(None, true);
    let entries = vec![entry("/r/.git/worktrees/b", true), entry("/r/.git/worktrees/a", true)];
    let reversed = vec![entry("/r/.git/worktrees/a", true), entry("/r/.git/worktrees/b", true)];
    let first: Vec<Vec<u8>> = r.worktrees(Ok(entries)).unwrap().into_iter().map(|p| p.git_dir).collect();
    let second: Vec<Vec<u8>> = r.worktrees(Ok(reversed)).unwrap().into_iter().map(|p| p.git_dir).collect();
    assert_eq!(first, second);
    assert_eq!(first[0], b"/r/.git/worktrees/a".to_vec());
}

#[test]
fn is_bare_follows_configuration() {
    assert!(repo(Some("/r"), true).is_bare());
    assert!(!repo(Some("/r"), false).is_bare());
    assert!(repo(None, true).is_bare());
}

#[test]
fn worktree_present_only_with_work_dir() {
    let r = repo(Some("/r"), false);
    let wt = r.worktree().unwrap();
    assert_eq!(wt.path, b"/r".to_vec());
    assert!(repo(None, true).worktree().is_none());
}

#[test]
fn main_repo_opens_common_dir() {
    let mut r = repo(Some("/wt"), false);
    r.git_dir = b"/r/.git/worktrees/wt".to_vec();
    let main = r
        .main_repo(Ok((Config { is_bare: false, index_threads: Some(Ok(true)) }, Some(b"/r".to_vec()))))
        .unwrap();
    assert_eq!(main.git_dir, b"/r/.git".to_vec());
    assert_eq!(main.common_dir, b"/r/.git".to_vec());
    assert_eq!(main.work_dir, Some(b"/r".to_vec()));
    assert_eq!(main.config.index_threads, Some(Ok(true)));
    let err = OpenError::NotARepository { path: b"/r/.git".to_vec() };
    assert_eq!(r.main_repo(Err(err.clone())).unwrap_err(), err);
}

#[test]
fn worktree_repos_skip_unreachable_checkouts() {
    let r = repo(Some("/r"), false);
    let linked = vec![
        LinkedCheckout { git_dir: b"/r/.git/worktrees/a".to_vec(), checkout: Some(b"/a".to_vec()) },
        LinkedCheckout { git_dir: b"/r/.git/worktrees/b".to_vec(), checkout: None },
        LinkedCheckout { git_dir: b"/r/.git/worktrees/c".to_vec(), checkout: Some(b"/c".to_vec()) },
    ];
    let repos = r.worktree_repos(&linked);
    assert_eq!(repos.len(), 2);
    assert_eq!(repos[0].git_dir, b"/r/.git/worktrees/a".to_vec());
    assert_eq!(repos[0].work_dir, Some(b"/a".to_vec()));
    assert_eq!(repos[0].common_dir, b"/r/.git".to_vec());
    assert_eq!(repos[1].git_dir, b"/r/.git/worktrees/c".to_vec());
    assert_eq!(repos[1].worktree().unwrap().path, b"/c".to_vec());
}
