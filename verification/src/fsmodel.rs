//! The filesystem the engines operate on: a flat list of whole files in walk
//! order, together with the directories known to exist. Its mathematical form
//! is a map from paths to contents and a set of directories.

use vstd::prelude::*;

use crate::paths::FilePath;
use crate::paths::PathModel;

verus! {

/// Mathematical form of the filesystem state.
pub ghost struct WorldModel {
    /// Every file, by its path, with its whole content.
    pub files: Map<PathModel, Seq<char>>,
    /// Every directory known to exist.
    pub dirs: Set<PathModel>,
}

/// One stored file: its path and its whole content.
pub struct FileEntry {
    pub path: FilePath,
    pub content: String,
}

/// The in-memory filesystem: files in walk order, and existing directories.
pub struct FileSystem {
    pub files: Vec<FileEntry>,
    pub dirs: Vec<FilePath>,
}

impl FileSystem {
    /// The paths of the stored files, in walk order.
    pub open spec fn file_keys(self) -> Seq<PathModel> {
        Seq::new(self.files@.len(), |i: int| self.files@[i].path@)
    }

    /// Whether a file is stored at `p`.
    pub open spec fn contains_file(self, p: PathModel) -> bool {
        exists|i: int| 0 <= i < self.files@.len() && #[trigger] self.files@[i].path@ == p
    }

    /// The content of the file stored at `p`.
    pub open spec fn content_at(self, p: PathModel) -> Seq<char> {
        let i = choose|i: int|
            0 <= i < self.files@.len() && #[trigger] self.files@[i].path@ == p;
        self.files@[i].content@
    }

    /// Whether the directory `p` exists.
    pub open spec fn contains_dir(self, p: PathModel) -> bool {
        exists|i: int| 0 <= i < self.dirs@.len() && #[trigger] self.dirs@[i]@ == p
    }

    /// No two stored files share a path.
    pub open spec fn wf(self) -> bool {
        forall|i: int, j: int|
            0 <= i < self.files@.len() && 0 <= j < self.files@.len() && i != j
                ==> #[trigger] self.files@[i].path@ != #[trigger] self.files@[j].path@
    }

    /// The mathematical world this filesystem denotes.
    pub open spec fn world(self) -> WorldModel {
        WorldModel {
            files: Map::new(
                |p: PathModel| self.contains_file(p),
                |p: PathModel| self.content_at(p),
            ),
            dirs: Set::new(|p: PathModel| self.contains_dir(p)),
        }
    }

    /// When a file stands at index `i`, looking its path up yields exactly
    /// that entry's content.
    pub proof fn lemma_content_at(self, p: PathModel, i: int)
        requires
            self.wf(),
            0 <= i < self.files@.len(),
            self.files@[i].path@ == p,
        ensures
            self.contains_file(p),
            self.content_at(p) == self.files@[i].content@,
    {
        let j = choose|j: int|
            0 <= j < self.files@.len() && #[trigger] self.files@[j].path@ == p;
        assert(j == i);
    }

    /// Two filesystems with the same directory list denote the same
    /// directory set.
    pub proof fn lemma_dirs_view(a: FileSystem, b: FileSystem)
        requires
            a.dirs@ == b.dirs@,
        ensures
            a.world().dirs == b.world().dirs,
    {
        assert forall|q: PathModel| a.contains_dir(q) implies b.contains_dir(q) by {
            let i = choose|i: int| 0 <= i < a.dirs@.len() && #[trigger] a.dirs@[i]@ == q;
            assert(b.dirs@[i]@ == q);
        }
        assert forall|q: PathModel| b.contains_dir(q) implies a.contains_dir(q) by {
            let i = choose|i: int| 0 <= i < b.dirs@.len() && #[trigger] b.dirs@[i]@ == q;
            assert(a.dirs@[i]@ == q);
        }
        assert(a.world().dirs =~= b.world().dirs);
    }

    /// An empty filesystem.
    pub fn empty() -> (fs: FileSystem)
        ensures
            fs.wf(),
            fs.world().files == Map::<PathModel, Seq<char>>::empty(),
            fs.world().dirs == Set::<PathModel>::empty(),
            fs.file_keys() == Seq::<PathModel>::empty(),
    {
        let fs = FileSystem { files: Vec::new(), dirs: Vec::new() };
        proof {
            assert(fs.world().files =~= Map::<PathModel, Seq<char>>::empty());
            assert(fs.world().dirs =~= Set::<PathModel>::empty());
            assert(fs.file_keys() =~= Seq::<PathModel>::empty());
        }
        fs
    }

    /// The index of the file stored at `p`, if any.
    fn find_file(&self, p: &FilePath) -> (r: Option<usize>)
        ensures
            match r {
                Some(i) => i < self.files.len() && self.files@[i as int].path@ == p@,
                None => !self.contains_file(p@),
            },
    {
        let mut i: usize = 0;
        while i < self.files.len()
            invariant
                i <= self.files.len(),
                forall|j: int| 0 <= j < i ==> #[trigger] self.files@[j].path@ != p@,
            decreases self.files.len() - i,
        {
            if self.files[i].path.eq_path(p) {
                return Some(i);
            }
            i = i + 1;
        }
        None
    }

    /// Whether a file exists at `p`.
    pub fn file_exists(&self, p: &FilePath) -> (b: bool)
        ensures
            b == self.contains_file(p@),
    {
        match self.find_file(p) {
            Some(_) => true,
            None => false,
        }
    }

    /// Whether the directory `p` exists.
    pub fn dir_exists(&self, p: &FilePath) -> (b: bool)
        ensures
            b == self.contains_dir(p@),
    {
        let mut i: usize = 0;
        while i < self.dirs.len()
            invariant
                i <= self.dirs.len(),
                forall|j: int| 0 <= j < i ==> #[trigger] self.dirs@[j]@ != p@,
            decreases self.dirs.len() - i,
        {
            if self.dirs[i].eq_path(p) {
                return true;
            }
            i = i + 1;
        }
        false
    }

    /// Whether anything, file or directory, exists at `p`.
    pub fn path_exists(&self, p: &FilePath) -> (b: bool)
        ensures
            b == (self.contains_file(p@) || self.contains_dir(p@)),
    {
        self.file_exists(p) || self.dir_exists(p)
    }

    /// The content of the file at `p`, if any.
    pub fn read_file(&self, p: &FilePath) -> (r: Option<String>)
        requires
            self.wf(),
        ensures
            match r {
                Some(c) => self.contains_file(p@) && c@ == self.content_at(p@),
                None => !self.contains_file(p@),
            },
    {
        match self.find_file(p) {
            Some(i) => {
                proof {
                    self.lemma_content_at(p@, i as int);
                }
                Some(self.files[i].content.clone())
            },
            None => None,
        }
    }

    /// Store `content` at `p`, replacing any file already there. A file
    /// already present keeps its place in walk order; a new one goes last.
    pub fn write_file(&mut self, p: &FilePath, content: String)
        requires
            old(self).wf(),
        ensures
            final(self).wf(),
            final(self).world().files == old(self).world().files.insert(p@, content@),
            final(self).world().dirs == old(self).world().dirs,
            final(self).file_keys() == if old(self).contains_file(p@) {
                old(self).file_keys()
            } else {
                old(self).file_keys().push(p@)
            },
            final(self).dirs == old(self).dirs,
    {
        let entry = FileEntry { path: p.dup(), content };
        match self.find_file(p) {
            Some(i) => {
                self.files.set(i, entry);
                proof {
                    assert forall|j: int|
                        0 <= j < self.files@.len() implies #[trigger] self.files@[j].path@
                            == old(self).files@[j].path@ by {
                        if j == i as int {
                            assert(self.files@[j].path@ == p@);
                        }
                    }
                    assert(self.file_keys() =~= old(self).file_keys());
                    assert forall|q: PathModel|
                        self.contains_file(q) implies old(self).contains_file(q) by {
                        let j = choose|j: int|
                            0 <= j < self.files@.len() && #[trigger] self.files@[j].path@ == q;
                        assert(old(self).files@[j].path@ == q);
                    }
                    assert forall|q: PathModel|
                        old(self).contains_file(q) implies self.contains_file(q) by {
                        let j = choose|j: int|
                            0 <= j < old(self).files@.len() && #[trigger] old(
                                self,
                            ).files@[j].path@ == q;
                        assert(self.files@[j].path@ == q);
                    }
                    assert forall|q: PathModel|
                        old(self).contains_file(q) && q != p@ implies self.content_at(q)
                            == old(self).content_at(q) by {
                        let j = choose|j: int|
                            0 <= j < old(self).files@.len() && #[trigger] old(
                                self,
                            ).files@[j].path@ == q;
                        assert(j != i as int);
                        old(self).lemma_content_at(q, j);
                        self.lemma_content_at(q, j);
                    }
                    self.lemma_content_at(p@, i as int);
                    assert(self.world().files =~= old(self).world().files.insert(p@, content@));
                    FileSystem::lemma_dirs_view(*self, *old(self));
                }
            },
            None => {
                self.files.push(entry);
                proof {
                    let n = old(self).files@.len() as int;
                    assert(self.files@[n].path@ == p@);
                    assert forall|q: PathModel|
                        old(self).contains_file(q) implies self.contains_file(q)
                            && self.content_at(q) == old(self).content_at(q) by {
                        let j = choose|j: int|
                            0 <= j < old(self).files@.len() && #[trigger] old(
                                self,
                            ).files@[j].path@ == q;
                        old(self).lemma_content_at(q, j);
                        assert(self.files@[j].path@ == q);
                        self.lemma_content_at(q, j);
                    }
                    self.lemma_content_at(p@, n);
                    assert forall|q: PathModel|
                        self.contains_file(q) && q != p@ implies old(self).contains_file(q) by {
                        let j = choose|j: int|
                            0 <= j < self.files@.len() && #[trigger] self.files@[j].path@ == q;
                        assert(j < n);
                        assert(old(self).files@[j].path@ == q);
                    }
                    assert(self.file_keys() =~= old(self).file_keys().push(p@));
                    assert(self.world().files =~= old(self).world().files.insert(p@, content@));
                    FileSystem::lemma_dirs_view(*self, *old(self));
                }
            },
        }
    }

    /// Register the directory `p` as existing.
    pub fn add_dir(&mut self, p: &FilePath)
        ensures
            final(self).world().files == old(self).world().files,
            final(self).world().dirs == old(self).world().dirs.insert(p@),
            final(self).files == old(self).files,
            final(self).wf() == old(self).wf(),
            final(self).file_keys() == old(self).file_keys(),
    {
        if !self.dir_exists(p) {
            self.dirs.push(p.dup());
            proof {
                let n = old(self).dirs@.len() as int;
                assert(self.dirs@[n]@ == p@);
                assert forall|q: PathModel|
                    old(self).contains_dir(q) implies self.contains_dir(q) by {
                    let j = choose|j: int|
                        0 <= j < old(self).dirs@.len() && #[trigger] old(self).dirs@[j]@ == q;
                    assert(self.dirs@[j]@ == q);
                }
                assert forall|q: PathModel|
                    self.contains_dir(q) && q != p@ implies old(self).contains_dir(q) by {
                    let j = choose|j: int|
                        0 <= j < self.dirs@.len() && #[trigger] self.dirs@[j]@ == q;
                    assert(j < n);
                    assert(old(self).dirs@[j]@ == q);
                }
                assert(self.contains_dir(p@));
                assert(self.world().dirs =~= old(self).world().dirs.insert(p@));
                assert forall|q: PathModel|
                    self.contains_file(q) == old(self).contains_file(q)
                        && (self.contains_file(q) ==> self.content_at(q) == old(self).content_at(
                        q,
                    )) by {
                    assert(self.files@ == old(self).files@);
                }
                assert(self.world().files =~= old(self).world().files);
            }
        } else {
            proof {
                assert(self.world().dirs =~= old(self).world().dirs.insert(p@));
                assert(self.world().files =~= old(self).world().files);
            }
        }
    }
}

} // verus!
