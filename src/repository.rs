use vstd::prelude::*;
use crate::bytes::{copy_bytes, opt_bytes_view};

verus! {

/// The hash algorithm of a repository's objects.
#[derive(Clone, Copy, Debug, PartialEq, Eq, Structural)]
pub enum ObjectHash {
    Sha1,
}

/// What the configuration accessor reported for a boolean key: absent, a
/// well-formed boolean, or present with raw text that is not a boolean.
pub type BooleanValue = Option<Result<bool, Vec<u8>>>;

/// The view of a reported boolean value.
pub open spec fn boolean_value_view(v: BooleanValue) -> Option<Result<bool, Seq<u8>>> {
    match v {
        None => None,
        Some(Ok(b)) => Some(Ok(b)),
        Some(Err(raw)) => Some(Err(raw@)),
    }
}

/// The resolved configuration snapshot of a repository, as far as it is read here.
#[derive(Debug)]
pub struct Config {
    /// `core.bare`.
    pub is_bare: bool,
    /// `index.threads`.
    pub index_threads: BooleanValue,
}

/// The mathematical value of a `Config`.
pub struct ConfigView {
    pub is_bare: bool,
    pub index_threads: Option<Result<bool, Seq<u8>>>,
}

impl View for Config {
    type V = ConfigView;

    open spec fn view(&self) -> ConfigView {
        ConfigView { is_bare: self.is_bare, index_threads: boolean_value_view(self.index_threads) }
    }
}

impl Config {
    /// An independent copy of this snapshot.
    pub fn duplicate(&self) -> (r: Config)
        ensures
            r@ == self@,
    {
        let index_threads = match &self.index_threads {
            None => None,
            Some(Ok(b)) => Some(Ok(*b)),
            Some(Err(raw)) => Some(Err(copy_bytes(raw))),
        };
        Config { is_bare: self.is_bare, index_threads }
    }
}

/// Why a repository could not be opened.
#[derive(Clone, Debug, PartialEq, Eq)]
pub enum OpenError {
    /// The path holds no `HEAD` or is no git directory.
    NotARepository { path: Vec<u8> },
    /// The configuration could not be read or parsed.
    Config { message: String },
    /// The repository format version is not supported.
    UnsupportedFormat { version: u64 },
}

/// An open repository: its own git directory, the common directory it shares
/// with all of its worktrees, its checkout if it has one, and its configuration.
#[derive(Debug)]
pub struct Repository {
    pub git_dir: Vec<u8>,
    pub common_dir: Vec<u8>,
    pub work_dir: Option<Vec<u8>>,
    pub config: Config,
    pub object_hash: ObjectHash,
}

/// The mathematical value of a `Repository`.
pub struct RepositoryView {
    pub git_dir: Seq<u8>,
    pub common_dir: Seq<u8>,
    pub work_dir: Option<Seq<u8>>,
    pub config: ConfigView,
    pub object_hash: ObjectHash,
}

impl View for Repository {
    type V = RepositoryView;

    open spec fn view(&self) -> RepositoryView {
        RepositoryView {
            git_dir: self.git_dir@,
            common_dir: self.common_dir@,
            work_dir: opt_bytes_view(self.work_dir),
            config: self.config@,
            object_hash: self.object_hash,
        }
    }
}

/// A validated checkout of a repository.
#[derive(Debug)]
pub struct Worktree<'repo> {
    pub parent: &'repo Repository,
    pub path: Vec<u8>,
}

impl Repository {
    /// True if the configuration says that this repository is bare, whether or
    /// not a checkout was found for this instance.
    pub fn is_bare(&self) -> (r: bool)
        ensures
            r == self.config.is_bare,
    {
        self.config.is_bare
    }

    /// The checkout of this instance, if it has one: absent for a bare
    /// repository and for a common directory opened without a checkout.
    pub fn worktree(&self) -> (r: Option<Worktree<'_>>)
        ensures
            r is Some <==> self.work_dir is Some,
            r is Some ==> r->Some_0.parent == self && Some(r->Some_0.path@) == opt_bytes_view(
                self.work_dir,
            ),
    {
        match &self.work_dir {
            Some(path) => Some(Worktree { parent: self, path: copy_bytes(path) }),
            None => None,
        }
    }

    /// The repository that owns the main worktree, opened at the common
    /// directory. `opened` is what opening that directory gave: its
    /// configuration and its checkout, or the error, which is handed on as it is.
    /// The result may be this repository again, and it may be bare.
    pub fn main_repo(&self, opened: Result<(Config, Option<Vec<u8>>), OpenError>) -> (r: Result<
        Repository,
        OpenError,
    >)
        ensures
            match opened {
                Ok((config, work_dir)) => r matches Ok(main) && main@ == (RepositoryView {
                    git_dir: self.common_dir@,
                    common_dir: self.common_dir@,
                    work_dir: opt_bytes_view(work_dir),
                    config: config@,
                    object_hash: self.object_hash,
                }),
                Err(e) => r == Err::<Repository, OpenError>(e),
            },
    {
        match opened {
            Ok((config, work_dir)) => Ok(
                Repository {
                    git_dir: copy_bytes(&self.common_dir),
                    common_dir: copy_bytes(&self.common_dir),
                    work_dir,
                    config,
                    object_hash: self.object_hash,
                },
            ),
            Err(e) => Err(e),
        }
    }
}

} // verus!
