//! The snapshot log model and versioned history: an append-only sequence of
//! commits over the vault tree, and the latest-first walk that answers which
//! versions exist for a dotfile.

use vstd::prelude::*;

use crate::Config;
use crate::DotfilesError;
use crate::backup::Dotfile;
use crate::backup::spec_resolve;
use crate::backup::spec_to_vault;
use crate::fsmodel::FileSystem;
use crate::paths::FilePath;
use crate::paths::PathModel;
use crate::paths::path_join;
use crate::paths::path_starts_with;
use crate::paths::path_strip_prefix;
use crate::paths::spec_parse_path;
use crate::utils::dec_chars;
use crate::utils::u64_to_string;

verus! {

/// Mathematical form of one snapshot.
pub ghost struct CommitModel {
    /// The commit identifier.
    pub id: Seq<char>,
    /// Seconds since the epoch.
    pub timestamp: int,
    /// The commit message.
    pub message: Seq<char>,
    /// The vault-relative keys of the files in this snapshot.
    pub tree: Seq<PathModel>,
}

/// Whether a snapshot's tree holds a file at `key`.
pub open spec fn tree_contains(c: CommitModel, key: PathModel) -> bool {
    exists|i: int| 0 <= i < c.tree.len() && #[trigger] c.tree[i] == key
}

/// One snapshot of the vault tree.
pub struct CommitRecord {
    pub id: String,
    pub timestamp: i64,
    pub message: String,
    pub tree: Vec<FilePath>,
}

impl View for CommitRecord {
    type V = CommitModel;

    open spec fn view(&self) -> CommitModel {
        CommitModel {
            id: self.id@,
            timestamp: self.timestamp as int,
            message: self.message@,
            tree: self.tree.deep_view(),
        }
    }
}

impl DeepView for CommitRecord {
    type V = CommitModel;

    open spec fn deep_view(&self) -> CommitModel {
        self.view()
    }
}

/// The snapshot log: commits oldest first, the head last.
pub struct Repository {
    pub commits: Vec<CommitRecord>,
}

impl View for Repository {
    type V = Seq<CommitModel>;

    open spec fn view(&self) -> Seq<CommitModel> {
        self.commits.deep_view()
    }
}

/// Mathematical form of one version record.
pub ghost struct VersionModel {
    pub commit_id: Seq<char>,
    pub timestamp: int,
    pub message: Seq<char>,
}

/// The version record a snapshot yields.
pub open spec fn version_of(c: CommitModel) -> VersionModel {
    VersionModel { commit_id: c.id, timestamp: c.timestamp, message: c.message }
}

/// A version of a dotfile, as the history reports it.
pub struct DotfileVersion {
    /// The commit identifier.
    pub commit_id: String,
    /// Seconds since the epoch.
    pub timestamp: i64,
    /// The message given at commit time.
    pub message: String,
}

impl View for DotfileVersion {
    type V = VersionModel;

    open spec fn view(&self) -> VersionModel {
        VersionModel {
            commit_id: self.commit_id@,
            timestamp: self.timestamp as int,
            message: self.message@,
        }
    }
}

impl DeepView for DotfileVersion {
    type V = VersionModel;

    open spec fn deep_view(&self) -> VersionModel {
        self.view()
    }
}

/// The versions of `key`, latest first: the backward walk from the head keeps
/// every snapshot whose tree holds the key.
pub open spec fn history_of(commits: Seq<CommitModel>, key: PathModel) -> Seq<VersionModel>
    decreases commits.len(),
{
    if commits.len() == 0 {
        Seq::empty()
    } else {
        let rest = history_of(commits.drop_last(), key);
        if tree_contains(commits.last(), key) {
            seq![version_of(commits.last())] + rest
        } else {
            rest
        }
    }
}

/// The content of the ignore file written on first initialization.
pub open spec fn gitignore_content() -> Seq<char> {
    "# Ignore temporary files\n*.tmp\n*.bak\n"@
}

/// Where the ignore file stands.
pub open spec fn gitignore_path(vault: PathModel) -> PathModel {
    path_join(vault, spec_parse_path(".gitignore"@))
}

/// Whether a file name is left unstaged by the ignore policy.
pub open spec fn ignored_name(name: Seq<char>) -> bool {
    chars_end_with(name, ".tmp"@) || chars_end_with(name, ".bak"@)
}

/// Whether `c` ends with `suf`.
pub open spec fn chars_end_with(c: Seq<char>, suf: Seq<char>) -> bool {
    c.len() >= suf.len() && c.skip(c.len() - suf.len()) == suf
}

/// Whether a commit stages the file at `p`: it lies under the vault root and
/// its name is not ignored.
pub open spec fn staged_key(p: PathModel, vault: PathModel) -> bool {
    &&& path_starts_with(p, vault)
    &&& p.components.len() > 0
    &&& !ignored_name(p.components.last())
}

/// The vault-relative keys staged from the walked `keys`, in walk order.
pub open spec fn staged_from(keys: Seq<PathModel>, vault: PathModel) -> Seq<PathModel>
    decreases keys.len(),
{
    if keys.len() == 0 {
        Seq::empty()
    } else {
        let rest = staged_from(keys.drop_last(), vault);
        if staged_key(keys.last(), vault) {
            rest.push(path_strip_prefix(keys.last(), vault))
        } else {
            rest
        }
    }
}

fn name_ends_with(name: &String, suffix: &str) -> (b: bool)
    ensures
        b == chars_end_with(name@, suffix@),
{
    let n = name.as_str().unicode_len();
    let m = suffix.unicode_len();
    if m > n {
        return false;
    }
    let mut i: usize = 0;
    while i < m
        invariant
            i <= m,
            m <= n,
            n == name@.len(),
            m == suffix@.len(),
            forall|j: int| 0 <= j < i ==> name@[n - m + j] == suffix@[j],
        decreases m - i,
    {
        if name.as_str().get_char(n - m + i) != suffix.get_char(i) {
            proof {
                if chars_end_with(name@, suffix@) {
                    assert(name@.skip(n - m)[i as int] == suffix@[i as int]);
                    assert(name@.skip(n - m)[i as int] == name@[n - m + i]);
                }
            }
            return false;
        }
        i = i + 1;
    }
    proof {
        assert(name@.skip(n - m) =~= suffix@);
    }
    true
}

/// The staged files of the vault tree, as vault-relative keys in walk order.
fn staged_files(config: &Config, fs: &FileSystem) -> (v: Vec<FilePath>)
    ensures
        v.deep_view() == staged_from(fs.file_keys(), config.vault_dir@),
{
    let mut staged: Vec<FilePath> = Vec::new();
    let mut i: usize = 0;
    while i < fs.files.len()
        invariant
            i <= fs.files.len(),
            staged.deep_view() == staged_from(fs.file_keys().take(i as int), config.vault_dir@),
        decreases fs.files.len() - i,
    {
        let ghost keys = fs.file_keys();
        proof {
            assert(keys.take(i + 1).drop_last() =~= keys.take(i as int));
            assert(keys.take(i + 1).last() == keys[i as int]);
            assert(keys[i as int] == fs.files@[i as int].path@);
        }
        let path = &fs.files[i].path;
        let nc = path.components.len();
        if nc > 0 {
            let name = &path.components[nc - 1];
            proof {
                assert(path@.components.last() == name@);
            }
            if !name_ends_with(name, ".tmp") && !name_ends_with(name, ".bak") {
                match path.strip_prefix(&config.vault_dir) {
                    Some(rel) => {
                        proof {
                            assert(staged@.len() == staged.deep_view().len());
                        }
                        staged.push(rel);
                        proof {
                            assert(staged.deep_view() =~= staged_from(
                                keys.take(i + 1),
                                config.vault_dir@,
                            ));
                        }
                    },
                    None => {},
                }
            }
        }
        i = i + 1;
    }
    proof {
        assert(fs.file_keys().take(fs.files@.len() as int) =~= fs.file_keys());
    }
    staged
}

/// Open the snapshot log, initializing it on first use: a fresh log starts
/// empty, the vault root is created, and the ignore file is written.
pub fn init_git_repo(config: &Config, fs: &mut FileSystem, repo: &mut Option<Repository>) -> (r:
    Result<(), DotfilesError>)
    requires
        old(fs).wf(),
    ensures
        final(fs).wf(),
        r is Ok,
        match *old(repo) {
            Some(_) => *final(repo) == *old(repo) && *final(fs) == *old(fs),
            None => match *final(repo) {
                Some(re) => re@ == Seq::<CommitModel>::empty() && final(fs).world().files == old(
                    fs,
                ).world().files.insert(gitignore_path(config.vault_dir@), gitignore_content())
                    && final(fs).world().dirs == old(fs).world().dirs.insert(config.vault_dir@)
                    && final(fs).file_keys() == if old(fs).contains_file(
                    gitignore_path(config.vault_dir@),
                ) {
                    old(fs).file_keys()
                } else {
                    old(fs).file_keys().push(gitignore_path(config.vault_dir@))
                },
                None => false,
            },
        },
{
    if repo.is_some() {
        return Ok(());
    }
    fs.add_dir(&config.vault_dir);
    let gi = config.vault_dir.join(&FilePath::parse(".gitignore"));
    fs.write_file(&gi, String::from_str("# Ignore temporary files\n*.tmp\n*.bak\n"));
    let fresh = Repository { commits: Vec::new() };
    proof {
        assert(fresh@ =~= Seq::<CommitModel>::empty());
    }
    *repo = Some(fresh);
    Ok(())
}

/// Stage every non-ignored file under the vault root and append one snapshot
/// whose parent is the current head. Returns the new commit's identifier.
pub fn commit_changes(
    config: &Config,
    fs: &mut FileSystem,
    repo: &mut Option<Repository>,
    message: &str,
    now: i64,
) -> (r: Result<String, DotfilesError>)
    requires
        old(fs).wf(),
        match *old(repo) {
            Some(re) => re.commits@.len() < u64::MAX,
            None => true,
        },
    ensures
        final(fs).wf(),
        match *old(repo) {
            Some(_) => *final(fs) == *old(fs),
            None => match *old(repo) {
                None => final(fs).world().files == old(fs).world().files.insert(
                    gitignore_path(config.vault_dir@),
                    gitignore_content(),
                ) && final(fs).world().dirs == old(fs).world().dirs.insert(config.vault_dir@),
                Some(_) => false,
            },
        },
        ({
            let prior = match *old(repo) {
                Some(re) => re@,
                None => Seq::<CommitModel>::empty(),
            };
            let newc = CommitModel {
                id: dec_chars((prior.len() + 1) as nat),
                timestamp: now as int,
                message: message@,
                tree: staged_from(final(fs).file_keys(), config.vault_dir@),
            };
            (match *final(repo) {
                Some(re) => re@ == prior.push(newc),
                None => false,
            }) && (match r {
                Ok(id) => id@ == dec_chars((prior.len() + 1) as nat),
                Err(_) => false,
            })
        }),
{
    let _ = init_git_repo(config, fs, repo);
    let staged = staged_files(config, fs);
    match repo {
        Some(re) => {
            let c64: u64 = re.commits.len() as u64;
            let id = u64_to_string(c64 + 1);
            let ghost pre = re.commits.deep_view();
            proof {
                assert(re.commits@.len() == pre.len());
            }
            let record = CommitRecord {
                id: id.clone(),
                timestamp: now,
                message: message.to_owned(),
                tree: staged,
            };
            re.commits.push(record);
            proof {
                assert(re.commits.deep_view() =~= pre.push(
                    CommitModel {
                        id: dec_chars((pre.len() + 1) as nat),
                        timestamp: now as int,
                        message: message@,
                        tree: staged_from(fs.file_keys(), config.vault_dir@),
                    },
                ));
            }
            Ok(id)
        },
        None => {
            proof {
                assert(false);
            }
            Err(DotfilesError::NoDotfilesVaultDir)
        },
    }
}

fn commit_tree_contains(c: &CommitRecord, key: &FilePath) -> (b: bool)
    ensures
        b == tree_contains(c@, key@),
{
    let mut i: usize = 0;
    while i < c.tree.len()
        invariant
            i <= c.tree.len(),
            forall|j: int| 0 <= j < i ==> #[trigger] c.tree.deep_view()[j] != key@,
        decreases c.tree.len() - i,
    {
        if c.tree[i].eq_path(key) {
            proof {
                assert(c.tree.deep_view()[i as int] == key@);
                assert(c@.tree[i as int] == key@);
            }
            return true;
        }
        proof {
            assert(c.tree.deep_view()[i as int] == c.tree@[i as int]@);
        }
        i = i + 1;
    }
    proof {
        if tree_contains(c@, key@) {
            let j = choose|j: int| 0 <= j < c@.tree.len() && #[trigger] c@.tree[j] == key@;
            assert(c.tree.deep_view()[j] == key@);
        }
    }
    false
}

/// The history of the named dotfile: the file is resolved and mapped into the
/// vault, and every snapshot whose tree holds it yields one version record,
/// latest first.
pub fn get_dotfile_history(
    config: &Config,
    fs: &FileSystem,
    repo: &Option<Repository>,
    dotfile_path: &str,
) -> (r: Result<Vec<DotfileVersion>, DotfilesError>)
    ensures
        ({
            let p = spec_resolve(dotfile_path@, config.home_dir@);
            let vp = spec_to_vault(p, config.home_dir@, config.vault_dir@);
            if !path_starts_with(vp, config.vault_dir@) {
                match r {
                    Err(DotfilesError::DotfileNotFound(m)) => m@ == dotfile_path@,
                    _ => false,
                }
            } else if !fs.contains_file(vp) {
                match r {
                    Err(DotfilesError::DotfileNotFound(m)) => m@ == dotfile_path@,
                    _ => false,
                }
            } else {
                match *repo {
                    None => match r {
                        Err(e) => e is NoDotfilesVaultDir,
                        Ok(_) => false,
                    },
                    Some(re) => match r {
                        Ok(v) => v.deep_view() == history_of(
                            re@,
                            path_strip_prefix(vp, config.vault_dir@),
                        ),
                        Err(_) => false,
                    },
                }
            }
        }),
{
    let parsed = FilePath::parse(dotfile_path);
    let path = config.home_dir.join(&parsed);
    let dotfile = Dotfile::new(path, config);
    let rel = match dotfile.vault_path.strip_prefix(&config.vault_dir) {
        Some(rel) => rel,
        None => {
            return Err(DotfilesError::DotfileNotFound(dotfile_path.to_owned()));
        },
    };
    if !fs.file_exists(&dotfile.vault_path) {
        return Err(DotfilesError::DotfileNotFound(dotfile_path.to_owned()));
    }
    let re = match repo {
        Some(re) => re,
        None => {
            return Err(DotfilesError::NoDotfilesVaultDir);
        },
    };
    let mut versions: Vec<DotfileVersion> = Vec::new();
    let n = re.commits.len();
    proof {
        assert(re.commits.deep_view().take(n as int) =~= re.commits.deep_view());
        assert(versions.deep_view() =~= Seq::<VersionModel>::empty());
        assert(versions.deep_view() + history_of(re.commits.deep_view(), rel@) =~= history_of(
            re.commits.deep_view(),
            rel@,
        ));
    }
    let mut j: usize = 0;
    while j < n
        invariant
            j <= n,
            n == re.commits.len(),
            rel@ == path_strip_prefix(
                spec_to_vault(
                    spec_resolve(dotfile_path@, config.home_dir@),
                    config.home_dir@,
                    config.vault_dir@,
                ),
                config.vault_dir@,
            ),
            versions.deep_view() + history_of(re.commits.deep_view().take((n - j) as int), rel@)
                == history_of(re.commits.deep_view(), rel@),
        decreases n - j,
    {
        let ghost cs = re.commits.deep_view();
        proof {
            assert(cs.take((n - j) as int).drop_last() =~= cs.take((n - j - 1) as int));
            assert(cs.take((n - j) as int).last() == cs[n - 1 - j]);
            assert(cs[n - 1 - j] == re.commits@[n - 1 - j]@);
        }
        let c = &re.commits[n - 1 - j];
        if commit_tree_contains(c, &rel) {
            let ghost pre = versions.deep_view();
            proof {
                assert(versions@.len() == pre.len());
            }
            versions.push(
                DotfileVersion {
                    commit_id: c.id.clone(),
                    timestamp: c.timestamp,
                    message: c.message.clone(),
                },
            );
            proof {
                assert(versions.deep_view() =~= pre.push(version_of(cs[n - 1 - j])));
                assert(versions.deep_view() + history_of(cs.take((n - j - 1) as int), rel@)
                    =~= history_of(cs, rel@));
            }
        } else {
            proof {
                assert(versions.deep_view() + history_of(cs.take((n - j - 1) as int), rel@)
                    =~= history_of(cs, rel@));
            }
        }
        j = j + 1;
    }
    proof {
        let cs = re.commits.deep_view();
        assert(history_of(cs.take(0), rel@) =~= Seq::<VersionModel>::empty());
        assert(versions.deep_view() =~= history_of(cs, rel@));
    }
    Ok(versions)
}

} // verus!
