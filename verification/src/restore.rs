//! Restore: copying entries from the vault back to their original locations,
//! and listing what the vault holds.

use vstd::prelude::*;

use crate::Config;
use crate::DotfilesError;
use crate::backup::Dotfile;
use crate::backup::spec_resolve;
use crate::backup::spec_to_vault;
use crate::fsmodel::FileSystem;
use crate::is_dotfile;
use crate::paths::FilePath;
use crate::paths::PathModel;
use crate::paths::path_is_dotfile;
use crate::paths::path_parent;
use crate::paths::path_starts_with;
use crate::paths::path_strip_prefix;
use crate::paths::spec_render_path;

verus! {

/// Copy one entry from its vault location back to its original location,
/// creating the original-side parent directory and overwriting whatever stood
/// there. Fails when the vault-side copy is missing, touching nothing.
pub fn restore_dotfile(dotfile: &Dotfile, fs: &mut FileSystem) -> (r: Result<(), DotfilesError>)
    requires
        old(fs).wf(),
    ensures
        final(fs).wf(),
        match r {
            Ok(()) => old(fs).contains_file(dotfile.vault_path@) && final(fs).world().files == old(
                fs,
            ).world().files.insert(
                dotfile.original_path@,
                old(fs).content_at(dotfile.vault_path@),
            ) && final(fs).world().dirs == (match path_parent(dotfile.original_path@) {
                Some(par) => old(fs).world().dirs.insert(par),
                None => old(fs).world().dirs,
            }) && final(fs).file_keys() == if old(fs).contains_file(dotfile.original_path@) {
                old(fs).file_keys()
            } else {
                old(fs).file_keys().push(dotfile.original_path@)
            },
            Err(e) => !old(fs).contains_file(dotfile.vault_path@) && *final(fs) == *old(fs)
                && match e {
                DotfilesError::DotfileNotFound(m) => m@ == spec_render_path(
                    dotfile.original_path@,
                ),
                _ => false,
            },
        },
{
    if !fs.file_exists(&dotfile.vault_path) {
        return Err(DotfilesError::DotfileNotFound(dotfile.original_path.render()));
    }
    match dotfile.original_path.parent() {
        Some(par) => fs.add_dir(&par),
        None => {},
    }
    match fs.read_file(&dotfile.vault_path) {
        Some(content) => {
            fs.write_file(&dotfile.original_path, content);
            Ok(())
        },
        None => {
            proof {
                assert(false);
            }
            Err(DotfilesError::DotfileNotFound(dotfile.original_path.render()))
        },
    }
}

/// Restore the named file: resolved against the home root; a name that is not
/// a dotfile is silently left alone, the rest is restored from the vault.
pub fn restore_specific_dotfile(config: &Config, fs: &mut FileSystem, file_path: &str) -> (r:
    Result<(), DotfilesError>)
    requires
        old(fs).wf(),
    ensures
        final(fs).wf(),
        ({
            let p = spec_resolve(file_path@, config.home_dir@);
            let vp = spec_to_vault(p, config.home_dir@, config.vault_dir@);
            if !path_is_dotfile(p) {
                r is Ok && *final(fs) == *old(fs)
            } else if old(fs).contains_file(vp) {
                r is Ok && final(fs).world().files == old(fs).world().files.insert(
                    p,
                    old(fs).content_at(vp),
                ) && final(fs).world().dirs == (match path_parent(p) {
                    Some(par) => old(fs).world().dirs.insert(par),
                    None => old(fs).world().dirs,
                }) && final(fs).file_keys() == if old(fs).contains_file(p) {
                    old(fs).file_keys()
                } else {
                    old(fs).file_keys().push(p)
                }
            } else {
                *final(fs) == *old(fs) && match r {
                    Err(DotfilesError::DotfileNotFound(m)) => m@ == spec_render_path(p),
                    _ => false,
                }
            }
        }),
{
    let parsed = FilePath::parse(file_path);
    let path = config.home_dir.join(&parsed);
    if !is_dotfile(&path) {
        return Ok(());
    }
    let dotfile = Dotfile::new(path, config);
    restore_dotfile(&dotfile, fs)
}

/// The vault-relative keys of the `keys` that lie under the vault root, in
/// walk order.
pub open spec fn listed_from(keys: Seq<PathModel>, vault: PathModel) -> Seq<PathModel>
    decreases keys.len(),
{
    if keys.len() == 0 {
        Seq::empty()
    } else {
        let rest = listed_from(keys.drop_last(), vault);
        if path_starts_with(keys.last(), vault) {
            rest.push(path_strip_prefix(keys.last(), vault))
        } else {
            rest
        }
    }
}

/// List every file in the vault, as its path relative to the vault root, in
/// walk order. Fails when the vault root does not exist.
pub fn list_backed_up_dotfiles(config: &Config, fs: &FileSystem) -> (r: Result<
    Vec<FilePath>,
    DotfilesError,
>)
    ensures
        match r {
            Ok(v) => (fs.contains_file(config.vault_dir@) || fs.contains_dir(config.vault_dir@))
                && v.deep_view() == listed_from(fs.file_keys(), config.vault_dir@),
            Err(e) => !fs.contains_file(config.vault_dir@) && !fs.contains_dir(config.vault_dir@)
                && e is NoDotfilesVaultDir,
        },
{
    if !fs.path_exists(&config.vault_dir) {
        return Err(DotfilesError::NoDotfilesVaultDir);
    }
    let mut listed: Vec<FilePath> = Vec::new();
    let mut i: usize = 0;
    while i < fs.files.len()
        invariant
            i <= fs.files.len(),
            listed.deep_view() == listed_from(fs.file_keys().take(i as int), config.vault_dir@),
        decreases fs.files.len() - i,
    {
        let ghost keys = fs.file_keys();
        proof {
            assert(keys.take(i + 1).drop_last() =~= keys.take(i as int));
            assert(keys.take(i + 1).last() == keys[i as int]);
            assert(keys[i as int] == fs.files@[i as int].path@);
        }
        match fs.files[i].path.strip_prefix(&config.vault_dir) {
            Some(rel) => {
                proof {
                    assert(listed@.len() == listed.deep_view().len());
                }
                listed.push(rel);
                proof {
                    assert(listed.deep_view() =~= listed_from(
                        keys.take(i + 1),
                        config.vault_dir@,
                    ));
                }
            },
            None => {},
        }
        i = i + 1;
    }
    proof {
        assert(fs.file_keys().take(fs.files@.len() as int) =~= fs.file_keys());
    }
    Ok(listed)
}

} // verus!
