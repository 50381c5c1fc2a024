//! The library's general guarantees, stated once over the models that the
//! functions' contracts use, and proved.

use vstd::prelude::*;

use crate::backup::discovered_from;
use crate::backup::discovery_keeps;
use crate::backup::lemma_discovered_keeps;
use crate::backup::spec_to_vault;
use crate::history::CommitModel;
use crate::history::history_of;
use crate::history::tree_contains;
use crate::history::version_of;
use crate::paths::PathModel;
use crate::paths::path_is_dotfile;
use crate::paths::path_starts_with;
use crate::paths::path_strip_prefix;

verus! {

/// Mapping round-trip: the vault location of a path under the home root lies
/// under the vault root, and stripping the vault root from it recovers
/// exactly the path's remainder below the home root.
pub proof fn lemma_mapping_round_trip(p: PathModel, home: PathModel, vault: PathModel)
    requires
        path_starts_with(p, home),
    ensures
        path_starts_with(spec_to_vault(p, home, vault), vault),
        path_strip_prefix(spec_to_vault(p, home, vault), vault) == path_strip_prefix(p, home),
{
    let suffix = path_strip_prefix(p, home);
    let vp = spec_to_vault(p, home, vault);
    assert(vp.components == vault.components + suffix.components);
    assert forall|i: int|
        0 <= i < vault.components.len() implies #[trigger] vp.components[i]
            == vault.components[i] by {
        assert((vault.components + suffix.components)[i] == vault.components[i]);
    }
    assert(path_strip_prefix(vp, vault).components =~= suffix.components);
}

/// The dotfile predicate reads the final path component alone: two paths with
/// the same file name agree on it, whatever their depth or parents.
pub proof fn lemma_dotfile_name_only(p: PathModel, q: PathModel)
    requires
        p.components.len() > 0,
        q.components.len() > 0,
        p.components.last() == q.components.last(),
    ensures
        path_is_dotfile(p) == path_is_dotfile(q),
{
}

/// Discovery never returns an entry inside the vault root, however its name
/// looks.
pub proof fn lemma_discovery_excludes_vault(
    keys: Seq<PathModel>,
    home: PathModel,
    vault: PathModel,
)
    ensures
        forall|k: int|
            0 <= k < discovered_from(keys, home, vault).len() ==> !path_starts_with(
                #[trigger] discovered_from(keys, home, vault)[k],
                vault,
            ),
{
    lemma_discovered_keeps(keys, home, vault);
    assert forall|k: int|
        0 <= k < discovered_from(keys, home, vault).len() implies !path_starts_with(
        #[trigger] discovered_from(keys, home, vault)[k],
        vault,
    ) by {
        assert(discovery_keeps(discovered_from(keys, home, vault)[k], home, vault));
    }
}

/// Backing a file up and then restoring it, with nothing happening between,
/// leaves its content exactly what it was: the backup stores the content at
/// the vault key, and the restore writes that same content back.
pub proof fn lemma_backup_then_restore(
    files: Map<PathModel, Seq<char>>,
    p: PathModel,
    home: PathModel,
    vault: PathModel,
)
    requires
        files.contains_key(p),
    ensures
        ({
            let vp = spec_to_vault(p, home, vault);
            let after_backup = files.insert(vp, files[p]);
            let after_restore = after_backup.insert(p, after_backup[vp]);
            after_restore.contains_key(p) && after_restore[p] == files[p]
        }),
{
}

/// History completeness: when every snapshot in the log holds the key, the
/// history has exactly one version per snapshot, latest first, each carrying
/// that snapshot's identifier, timestamp and message.
pub proof fn lemma_history_completeness(commits: Seq<CommitModel>, key: PathModel)
    requires
        forall|i: int| 0 <= i < commits.len() ==> tree_contains(#[trigger] commits[i], key),
    ensures
        history_of(commits, key).len() == commits.len(),
        forall|i: int|
            0 <= i < commits.len() ==> #[trigger] history_of(commits, key)[i] == version_of(
                commits[commits.len() - 1 - i],
            ),
    decreases commits.len(),
{
    if commits.len() > 0 {
        assert forall|i: int|
            0 <= i < commits.drop_last().len() implies tree_contains(
            #[trigger] commits.drop_last()[i],
            key,
        ) by {
            assert(commits.drop_last()[i] == commits[i]);
        }
        lemma_history_completeness(commits.drop_last(), key);
        assert(tree_contains(commits[commits.len() - 1], key));
        assert(tree_contains(commits.last(), key));
        let h = history_of(commits, key);
        let rest = history_of(commits.drop_last(), key);
        assert(h == seq![version_of(commits.last())] + rest);
        assert forall|i: int|
            0 <= i < commits.len() implies #[trigger] h[i] == version_of(
            commits[commits.len() - 1 - i],
        ) by {
            if i == 0 {
                assert(h[0] == version_of(commits.last()));
            } else {
                assert(h[i] == rest[i - 1]);
                assert(rest[i - 1] == version_of(
                    commits.drop_last()[commits.drop_last().len() - 1 - (i - 1)],
                ));
                assert(commits.drop_last()[commits.len() - 1 - i] == commits[commits.len() - 1
                    - i]);
            }
        }
    }
}

} // verus!
