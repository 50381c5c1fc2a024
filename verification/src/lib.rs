//! Dotfiles vault: a verified model of dotfile discovery, backup, restore and
//! versioned history over an in-memory filesystem and an append-only snapshot
//! log. The surrounding application performs the real disk and repository
//! work; every rule and decision lives here.

use vstd::prelude::*;

pub mod backup;
pub mod fsmodel;
pub mod history;
pub mod laws;
pub mod paths;
pub mod restore;
pub mod utils;

use crate::fsmodel::FileSystem;
use crate::fsmodel::WorldModel;
use crate::paths::FilePath;
use crate::paths::PathModel;
use crate::paths::path_is_dotfile;

verus! {

/// Errors produced by the vault's operations.
#[derive(Debug)]
pub enum DotfilesError {
    /// A filesystem operation failed.
    Io(String),
    /// The platform home directory could not be determined.
    NoHomeDir,
    /// An operation that needs an existing vault found none.
    NoDotfilesVaultDir,
    /// A named file does not exist where it was expected.
    DotfileNotFound(String),
    /// A requested version does not exist (version-specific restore).
    VersionNotFound(String),
    /// The snapshot log engine reported an error.
    Git(String),
}

/// The world once the vault root exists: unchanged when something already
/// stands at its path as a file, otherwise with the vault directory created.
pub open spec fn spec_init_vault(w: WorldModel, vault: PathModel) -> WorldModel {
    if w.files.contains_key(vault) {
        w
    } else {
        WorldModel { files: w.files, dirs: w.dirs.insert(vault) }
    }
}

/// The two roots every operation works from, fixed at startup.
pub struct Config {
    /// The vault directory holding the backed-up copies.
    pub vault_dir: FilePath,
    /// The home directory the dotfiles are discovered under.
    pub home_dir: FilePath,
}

impl Config {
    /// A configuration from the two roots.
    pub fn new(vault_dir: FilePath, home_dir: FilePath) -> (c: Config)
        ensures
            c.vault_dir == vault_dir,
            c.home_dir == home_dir,
    {
        Config { vault_dir, home_dir }
    }

    /// Create the vault directory unless something already stands at its
    /// path.
    pub fn init_vault_dir(&self, fs: &mut FileSystem) -> (r: Result<(), DotfilesError>)
        requires
            old(fs).wf(),
        ensures
            final(fs).wf(),
            r is Ok,
            final(fs).file_keys() == old(fs).file_keys(),
            final(fs).world() == spec_init_vault(old(fs).world(), self.vault_dir@),
    {
        if !fs.path_exists(&self.vault_dir) {
            fs.add_dir(&self.vault_dir);
        } else {
            proof {
                if !fs.contains_file(self.vault_dir@) {
                    assert(fs.world().dirs.contains(self.vault_dir@));
                    assert(fs.world().dirs =~= fs.world().dirs.insert(self.vault_dir@));
                }
            }
        }
        Ok(())
    }
}

/// Whether the path names a dotfile: its final component starts with a dot.
pub fn is_dotfile(path: &FilePath) -> (b: bool)
    ensures
        b == path_is_dotfile(path@),
{
    let n = path.components.len();
    if n == 0 {
        return false;
    }
    let name: &String = &path.components[n - 1];
    proof {
        assert(path@.components.last() == name@);
    }
    let len = name.as_str().unicode_len();
    if len == 0 {
        return false;
    }
    name.as_str().get_char(0) == '.'
}

} // verus!
