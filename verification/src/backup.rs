//! Discovery and backup: finding the dotfiles under the home root and copying
//! them to their vault locations.

use vstd::prelude::*;

use crate::Config;
use crate::DotfilesError;
use crate::fsmodel::FileSystem;
use crate::fsmodel::WorldModel;
use crate::is_dotfile;
use crate::paths::FilePath;
use crate::paths::PathModel;
use crate::paths::path_is_dotfile;
use crate::paths::path_join;
use crate::paths::path_parent;
use crate::paths::path_starts_with;
use crate::paths::path_strip_prefix;
use crate::paths::spec_parse_path;
use crate::paths::spec_render_path;
use crate::spec_init_vault;

verus! {

/// Mathematical form of a tracked entry: the two paths.
pub ghost struct DotfileModel {
    pub original_path: PathModel,
    pub vault_path: PathModel,
}

/// Where a path is mirrored inside the vault: the vault root joined with the
/// path's remainder below the home root, or with the path itself when it does
/// not lie under the home root.
pub open spec fn spec_to_vault(p: PathModel, home: PathModel, vault: PathModel) -> PathModel {
    if path_starts_with(p, home) {
        path_join(vault, path_strip_prefix(p, home))
    } else {
        path_join(vault, p)
    }
}

/// The entry that tracks `p`.
pub open spec fn spec_dotfile(p: PathModel, home: PathModel, vault: PathModel) -> DotfileModel {
    DotfileModel { original_path: p, vault_path: spec_to_vault(p, home, vault) }
}

/// Resolving a textual argument: parsed, and taken relative to the home root
/// unless absolute.
pub open spec fn spec_resolve(s: Seq<char>, home: PathModel) -> PathModel {
    path_join(home, spec_parse_path(s))
}

/// Whether discovery keeps a path: a dotfile under the home root that does
/// not lie inside the vault.
pub open spec fn discovery_keeps(p: PathModel, home: PathModel, vault: PathModel) -> bool {
    &&& path_starts_with(p, home)
    &&& !path_starts_with(p, vault)
    &&& path_is_dotfile(p)
}

/// The kept paths among `keys`, in walk order.
pub open spec fn discovered_from(keys: Seq<PathModel>, home: PathModel, vault: PathModel) -> Seq<
    PathModel,
>
    decreases keys.len(),
{
    if keys.len() == 0 {
        Seq::empty()
    } else {
        let rest = discovered_from(keys.drop_last(), home, vault);
        if discovery_keeps(keys.last(), home, vault) {
            rest.push(keys.last())
        } else {
            rest
        }
    }
}

/// Every discovered path is kept by the discovery rule; in particular none
/// lies inside the vault.
pub proof fn lemma_discovered_keeps(keys: Seq<PathModel>, home: PathModel, vault: PathModel)
    ensures
        forall|k: int|
            0 <= k < discovered_from(keys, home, vault).len() ==> discovery_keeps(
                #[trigger] discovered_from(keys, home, vault)[k],
                home,
                vault,
            ),
    decreases keys.len(),
{
    if keys.len() > 0 {
        lemma_discovered_keeps(keys.drop_last(), home, vault);
        let rest = discovered_from(keys.drop_last(), home, vault);
        if discovery_keeps(keys.last(), home, vault) {
            assert forall|k: int|
                0 <= k < discovered_from(keys, home, vault).len() implies discovery_keeps(
                #[trigger] discovered_from(keys, home, vault)[k],
                home,
                vault,
            ) by {
                if k < rest.len() {
                    assert(discovered_from(keys, home, vault)[k] == rest[k]);
                } else {
                    assert(discovered_from(keys, home, vault)[k] == keys.last());
                }
            }
        }
    }
}

/// Every discovered path occurs in the walked key list.
pub proof fn lemma_discovered_in_keys(keys: Seq<PathModel>, home: PathModel, vault: PathModel)
    ensures
        forall|k: int|
            0 <= k < discovered_from(keys, home, vault).len() ==> keys.contains(
                #[trigger] discovered_from(keys, home, vault)[k],
            ),
    decreases keys.len(),
{
    if keys.len() > 0 {
        lemma_discovered_in_keys(keys.drop_last(), home, vault);
        let rest = discovered_from(keys.drop_last(), home, vault);
        assert forall|k: int|
            0 <= k < discovered_from(keys, home, vault).len() implies keys.contains(
            #[trigger] discovered_from(keys, home, vault)[k],
        ) by {
            if k < rest.len() {
                assert(discovered_from(keys, home, vault)[k] == rest[k]);
                assert(keys.drop_last().contains(rest[k]));
                let j = choose|j: int|
                    0 <= j < keys.drop_last().len() && keys.drop_last()[j] == rest[k];
                assert(keys[j] == rest[k]);
            } else {
                assert(discovered_from(keys, home, vault)[k] == keys.last());
                assert(keys[keys.len() - 1] == keys.last());
            }
        }
    }
}

/// The world after the paths `ps` are backed up in order into `w`: each gets
/// its vault parent directory, and its content from `w` stored at its vault
/// location.
pub open spec fn spec_backup_world(
    w: WorldModel,
    ps: Seq<PathModel>,
    home: PathModel,
    vault: PathModel,
) -> WorldModel
    decreases ps.len(),
{
    if ps.len() == 0 {
        w
    } else {
        let prev = spec_backup_world(w, ps.drop_last(), home, vault);
        let p = ps.last();
        let vp = spec_to_vault(p, home, vault);
        WorldModel {
            files: prev.files.insert(vp, w.files[p]),
            dirs: match path_parent(vp) {
                Some(par) => prev.dirs.insert(par),
                None => prev.dirs,
            },
        }
    }
}

/// Backing up paths under the home root leaves every location outside the
/// vault untouched.
pub proof fn lemma_backup_world_off_vault(
    w: WorldModel,
    ps: Seq<PathModel>,
    home: PathModel,
    vault: PathModel,
)
    requires
        forall|k: int| 0 <= k < ps.len() ==> path_starts_with(#[trigger] ps[k], home),
    ensures
        forall|q: PathModel|
            !path_starts_with(q, vault) ==> spec_backup_world(
                w,
                ps,
                home,
                vault,
            ).files.contains_key(q) == w.files.contains_key(q),
        forall|q: PathModel|
            !path_starts_with(q, vault) && w.files.contains_key(q) ==> spec_backup_world(
                w,
                ps,
                home,
                vault,
            ).files[q] == w.files[q],
    decreases ps.len(),
{
    if ps.len() > 0 {
        assert forall|k: int|
            0 <= k < ps.drop_last().len() implies path_starts_with(
            #[trigger] ps.drop_last()[k],
            home,
        ) by {
            assert(ps.drop_last()[k] == ps[k]);
        }
        lemma_backup_world_off_vault(w, ps.drop_last(), home, vault);
        let p = ps.last();
        assert(path_starts_with(p, home));
        let vp = spec_to_vault(p, home, vault);
        assert(path_starts_with(vp, vault));
    }
}

/// A tracked entry: where the file stands in the home tree and where its
/// mirrored copy stands in the vault.
pub struct Dotfile {
    /// Original path in the home directory.
    pub original_path: FilePath,
    /// Path in the vault directory.
    pub vault_path: FilePath,
}

impl View for Dotfile {
    type V = DotfileModel;

    open spec fn view(&self) -> DotfileModel {
        DotfileModel { original_path: self.original_path@, vault_path: self.vault_path@ }
    }
}

impl DeepView for Dotfile {
    type V = DotfileModel;

    open spec fn deep_view(&self) -> DotfileModel {
        self.view()
    }
}

impl Dotfile {
    /// Track `original_path`: its vault location is derived from the two
    /// configured roots and nothing else.
    pub fn new(original_path: FilePath, config: &Config) -> (d: Dotfile)
        ensures
            d.original_path == original_path,
            d@ == spec_dotfile(original_path@, config.home_dir@, config.vault_dir@),
    {
        let vault_path = match original_path.strip_prefix(&config.home_dir) {
            Some(rest) => config.vault_dir.join(&rest),
            None => config.vault_dir.join(&original_path),
        };
        Dotfile { original_path, vault_path }
    }
}

/// Find every dotfile under the home root, excluding the vault subtree.
pub fn find_dotfiles(config: &Config, fs: &FileSystem) -> (r: Result<Vec<Dotfile>, DotfilesError>)
    ensures
        r is Ok,
        ({
            let disc = discovered_from(fs.file_keys(), config.home_dir@, config.vault_dir@);
            let v = r.unwrap();
            v.deep_view().len() == disc.len() && forall|k: int|
                0 <= k < disc.len() ==> v.deep_view()[k] == spec_dotfile(
                    #[trigger] disc[k],
                    config.home_dir@,
                    config.vault_dir@,
                )
        }),
{
    let mut dotfiles: Vec<Dotfile> = Vec::new();
    let mut i: usize = 0;
    while i < fs.files.len()
        invariant
            i <= fs.files.len(),
            ({
                let disc = discovered_from(
                    fs.file_keys().take(i as int),
                    config.home_dir@,
                    config.vault_dir@,
                );
                dotfiles.deep_view().len() == disc.len() && forall|k: int|
                    0 <= k < disc.len() ==> dotfiles.deep_view()[k] == spec_dotfile(
                        #[trigger] disc[k],
                        config.home_dir@,
                        config.vault_dir@,
                    )
            }),
        decreases fs.files.len() - i,
    {
        let ghost keys = fs.file_keys();
        proof {
            assert(keys.take(i + 1).drop_last() =~= keys.take(i as int));
            assert(keys.take(i + 1).last() == keys[i as int]);
            assert(keys[i as int] == fs.files@[i as int].path@);
        }
        let path = &fs.files[i].path;
        if !path.starts_with(&config.vault_dir) && path.starts_with(&config.home_dir)
            && is_dotfile(path) {
            let ghost pre = dotfiles.deep_view();
            proof {
                assert(dotfiles@.len() == pre.len());
            }
            dotfiles.push(Dotfile::new(path.dup(), config));
            proof {
                let disc = discovered_from(keys.take(i + 1), config.home_dir@, config.vault_dir@);
                assert(dotfiles.deep_view().len() == disc.len());
                assert forall|k: int|
                    0 <= k < disc.len() implies dotfiles.deep_view()[k] == spec_dotfile(
                    #[trigger] disc[k],
                    config.home_dir@,
                    config.vault_dir@,
                ) by {
                    if k < pre.len() {
                        assert(dotfiles.deep_view()[k] == pre[k]);
                    }
                }
            }
        }
        i = i + 1;
    }
    proof {
        assert(fs.file_keys().take(fs.files@.len() as int) =~= fs.file_keys());
    }
    Ok(dotfiles)
}

/// Copy one entry from its original location to its vault location, creating
/// the vault-side parent directory. Fails when the original file is missing.
pub fn backup_dotfile(dotfile: &Dotfile, fs: &mut FileSystem) -> (r: Result<(), DotfilesError>)
    requires
        old(fs).wf(),
    ensures
        final(fs).wf(),
        final(fs).world().dirs == match path_parent(dotfile.vault_path@) {
            Some(par) => old(fs).world().dirs.insert(par),
            None => old(fs).world().dirs,
        },
        match r {
            Ok(()) => old(fs).contains_file(dotfile.original_path@) && final(fs).world().files
                == old(fs).world().files.insert(
                dotfile.vault_path@,
                old(fs).content_at(dotfile.original_path@),
            ) && final(fs).file_keys() == if old(fs).contains_file(dotfile.vault_path@) {
                old(fs).file_keys()
            } else {
                old(fs).file_keys().push(dotfile.vault_path@)
            },
            Err(e) => !old(fs).contains_file(dotfile.original_path@) && final(fs).world().files
                == old(fs).world().files && final(fs).file_keys() == old(fs).file_keys() && match e {
                DotfilesError::Io(m) => m@ == spec_render_path(dotfile.original_path@),
                _ => false,
            },
        },
{
    match dotfile.vault_path.parent() {
        Some(par) => fs.add_dir(&par),
        None => {},
    }
    match fs.read_file(&dotfile.original_path) {
        Some(content) => {
            fs.write_file(&dotfile.vault_path, content);
            Ok(())
        },
        None => Err(DotfilesError::Io(dotfile.original_path.render())),
    }
}

/// Back up every discovered dotfile: create the vault root, run discovery,
/// and copy each entry in walk order.
pub fn backup_all_dotfiles(config: &Config, fs: &mut FileSystem) -> (r: Result<
    (),
    DotfilesError,
>)
    requires
        old(fs).wf(),
    ensures
        final(fs).wf(),
        r is Ok,
        final(fs).world() == spec_backup_world(
            spec_init_vault(old(fs).world(), config.vault_dir@),
            discovered_from(old(fs).file_keys(), config.home_dir@, config.vault_dir@),
            config.home_dir@,
            config.vault_dir@,
        ),
{
    let _ = config.init_vault_dir(fs);
    let ghost fs0 = *fs;
    let ghost w1 = fs.world();
    let ghost keys0 = fs.file_keys();
    let ghost disc = discovered_from(fs.file_keys(), config.home_dir@, config.vault_dir@);
    let dotfiles = match find_dotfiles(config, fs) {
        Ok(v) => v,
        Err(e) => {
            proof {
                assert(false);
            }
            return Err(e);
        },
    };
    proof {
        lemma_discovered_keeps(fs.file_keys(), config.home_dir@, config.vault_dir@);
        assert forall|k: int| 0 <= k < disc.len() implies path_starts_with(
            #[trigger] disc[k],
            config.home_dir@,
        ) by {}
    }
    let n = dotfiles.len();
    let mut i: usize = 0;
    while i < n
        invariant
            n == dotfiles.len(),
            i <= n,
            fs.wf(),
            fs0.wf(),
            w1 == fs0.world(),
            keys0 == fs0.file_keys(),
            keys0 == old(fs).file_keys(),
            w1 == spec_init_vault(old(fs).world(), config.vault_dir@),
            disc == discovered_from(keys0, config.home_dir@, config.vault_dir@),
            dotfiles.deep_view().len() == disc.len(),
            disc.len() == n,
            forall|k: int|
                0 <= k < disc.len() ==> dotfiles.deep_view()[k] == spec_dotfile(
                    #[trigger] disc[k],
                    config.home_dir@,
                    config.vault_dir@,
                ),
            forall|k: int|
                0 <= k < disc.len() ==> discovery_keeps(#[trigger] disc[k], config.home_dir@, config.vault_dir@),
            fs.world() == spec_backup_world(
                w1,
                disc.take(i as int),
                config.home_dir@,
                config.vault_dir@,
            ),
        decreases n - i,
    {
        proof {
            assert(disc.take(i + 1).drop_last() =~= disc.take(i as int));
            assert(disc.take(i + 1).last() == disc[i as int]);
            assert forall|k: int|
                0 <= k < disc.take(i as int).len() implies path_starts_with(
                #[trigger] disc.take(i as int)[k],
                config.home_dir@,
            ) by {
                assert(disc.take(i as int)[k] == disc[k]);
            }
            lemma_backup_world_off_vault(
                w1,
                disc.take(i as int),
                config.home_dir@,
                config.vault_dir@,
            );
            lemma_discovered_in_keys(keys0, config.home_dir@, config.vault_dir@);
            let q = disc[i as int];
            assert(!path_starts_with(q, config.vault_dir@));
            assert(keys0.contains(q));
            let j = choose|j: int| 0 <= j < keys0.len() && keys0[j] == q;
            assert(fs0.files@[j].path@ == q);
            assert(fs0.contains_file(q));
            assert(w1.files.contains_key(q));
            assert(fs.world().files.contains_key(q));
            assert(fs.contains_file(q));
            assert(fs.world().files[q] == w1.files[q]);
            assert(fs.content_at(q) == w1.files[q]);
        }
        proof {
            assert(dotfiles.deep_view()[i as int] == dotfiles@[i as int].deep_view());
        }
        match backup_dotfile(&dotfiles[i], fs) {
            Ok(()) => {},
            Err(e) => {
                proof {
                    assert(false);
                }
                return Err(e);
            },
        }
        proof {
            assert(fs.world() =~~= spec_backup_world(
                w1,
                disc.take(i + 1),
                config.home_dir@,
                config.vault_dir@,
            ));
        }
        i = i + 1;
    }
    proof {
        assert(disc.take(n as int) =~= disc);
    }
    Ok(())
}

/// Mathematical form of one batch step's outcome: the world reached, and
/// where the batch stopped if it failed.
pub ghost enum BatchOutcome {
    /// Every argument was handled.
    Finished(WorldModel),
    /// The argument at this index named nothing that exists.
    NotFound(WorldModel, int),
    /// The argument at this index named a dotfile whose copy failed.
    CopyFail(WorldModel, int),
}

/// The batch backup, argument by argument from `i` on: a missing entry stops
/// the batch, a non-dotfile is skipped, a dotfile directory fails the copy,
/// and a dotfile file is backed up as one entry.
pub open spec fn spec_backup_specific(
    w: WorldModel,
    inputs: Seq<Seq<char>>,
    i: int,
    home: PathModel,
    vault: PathModel,
) -> BatchOutcome
    decreases inputs.len() - i,
{
    if i < 0 || i >= inputs.len() {
        BatchOutcome::Finished(w)
    } else {
        let p = spec_resolve(inputs[i], home);
        if !w.files.contains_key(p) && !w.dirs.contains(p) {
            BatchOutcome::NotFound(w, i)
        } else if !path_is_dotfile(p) {
            spec_backup_specific(w, inputs, i + 1, home, vault)
        } else {
            let vp = spec_to_vault(p, home, vault);
            let dirs2 = match path_parent(vp) {
                Some(par) => w.dirs.insert(par),
                None => w.dirs,
            };
            if w.files.contains_key(p) {
                spec_backup_specific(
                    WorldModel { files: w.files.insert(vp, w.files[p]), dirs: dirs2 },
                    inputs,
                    i + 1,
                    home,
                    vault,
                )
            } else {
                BatchOutcome::CopyFail(WorldModel { files: w.files, dirs: dirs2 }, i)
            }
        }
    }
}

/// Back up the named files: each is resolved against the home root, a missing
/// one aborts the batch, a non-dotfile is skipped silently, and the rest are
/// copied into the vault.
pub fn backup_specific_dotfiles(config: &Config, fs: &mut FileSystem, files: &Vec<String>) -> (r:
    Result<(), DotfilesError>)
    requires
        old(fs).wf(),
    ensures
        final(fs).wf(),
        ({
            let inputs = files.deep_view();
            let out = spec_backup_specific(
                spec_init_vault(old(fs).world(), config.vault_dir@),
                inputs,
                0,
                config.home_dir@,
                config.vault_dir@,
            );
            match out {
                BatchOutcome::Finished(world) => r is Ok && final(fs).world() == world,
                BatchOutcome::NotFound(world, at) => final(fs).world() == world && match r {
                    Err(DotfilesError::DotfileNotFound(s)) => s@ == inputs[at],
                    _ => false,
                },
                BatchOutcome::CopyFail(world, at) => final(fs).world() == world && match r {
                    Err(DotfilesError::Io(m)) => m@ == spec_render_path(
                        spec_resolve(inputs[at], config.home_dir@),
                    ),
                    _ => false,
                },
            }
        }),
{
    let _ = config.init_vault_dir(fs);
    let ghost w1 = fs.world();
    let ghost inputs = files.deep_view();
    let n = files.len();
    let mut i: usize = 0;
    while i < n
        invariant
            n == files.len(),
            i <= n,
            fs.wf(),
            inputs == files.deep_view(),
            w1 == spec_init_vault(old(fs).world(), config.vault_dir@),
            spec_backup_specific(w1, inputs, 0, config.home_dir@, config.vault_dir@)
                == spec_backup_specific(
                fs.world(),
                inputs,
                i as int,
                config.home_dir@,
                config.vault_dir@,
            ),
        decreases n - i,
    {
        let parsed = FilePath::parse(files[i].as_str());
        let path = config.home_dir.join(&parsed);
        proof {
            assert(files@[i as int]@ == inputs[i as int]);
            assert(path@ == spec_resolve(inputs[i as int], config.home_dir@));
        }
        if !fs.path_exists(&path) {
            proof {
                assert(!fs.world().files.contains_key(path@) && !fs.world().dirs.contains(path@));
                assert(spec_backup_specific(
                    fs.world(),
                    inputs,
                    i as int,
                    config.home_dir@,
                    config.vault_dir@,
                ) == BatchOutcome::NotFound(fs.world(), i as int));
            }
            return Err(DotfilesError::DotfileNotFound(files[i].clone()));
        }
        if is_dotfile(&path) {
            let dotfile = Dotfile::new(path, config);
            let ghost w_before = fs.world();
            let ghost vp = dotfile.vault_path@;
            let ghost dirs2 = (match path_parent(vp) {
                Some(par) => w_before.dirs.insert(par),
                None => w_before.dirs,
            });
            match backup_dotfile(&dotfile, fs) {
                Ok(()) => {
                    proof {
                        assert(w_before.files.contains_key(dotfile.original_path@));
                        assert(fs.world() =~~= WorldModel {
                            files: w_before.files.insert(
                                vp,
                                w_before.files[dotfile.original_path@],
                            ),
                            dirs: dirs2,
                        });
                        assert(spec_backup_specific(
                            w_before,
                            inputs,
                            i as int,
                            config.home_dir@,
                            config.vault_dir@,
                        ) == spec_backup_specific(
                            fs.world(),
                            inputs,
                            i + 1,
                            config.home_dir@,
                            config.vault_dir@,
                        ));
                    }
                },
                Err(e) => {
                    proof {
                        assert(!w_before.files.contains_key(dotfile.original_path@));
                        assert(fs.world() =~~= WorldModel { files: w_before.files, dirs: dirs2 });
                        assert(spec_backup_specific(
                            w_before,
                            inputs,
                            i as int,
                            config.home_dir@,
                            config.vault_dir@,
                        ) == BatchOutcome::CopyFail(fs.world(), i as int));
                    }
                    return Err(e);
                },
            }
        } else {
            proof {
                assert(spec_backup_specific(
                    fs.world(),
                    inputs,
                    i as int,
                    config.home_dir@,
                    config.vault_dir@,
                ) == spec_backup_specific(
                    fs.world(),
                    inputs,
                    i + 1,
                    config.home_dir@,
                    config.vault_dir@,
                ));
            }
        }
        i = i + 1;
    }
    proof {
        assert(spec_backup_specific(
            fs.world(),
            inputs,
            n as int,
            config.home_dir@,
            config.vault_dir@,
        ) == BatchOutcome::Finished(fs.world()));
    }
    Ok(())
}

} // verus!
