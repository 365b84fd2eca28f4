//! The folders that are shared, by name.
use crate::text::str_eq;
use vstd::prelude::*;

verus! {

/// A shared folder: the name it is shared under and where it lies.
struct FolderRoot {
    name: String,
    path: String,
}

/// The shared folders. Each name stands for one folder.
pub struct FolderRoots {
    roots: Vec<FolderRoot>,
}

/// The names of `roots`, in their order.
spec fn names_of(roots: Seq<FolderRoot>) -> Seq<Seq<char>> {
    Seq::new(roots.len(), |i: int| roots[i].name@)
}

/// What `roots` say lies under each name.
spec fn folders_of(roots: Seq<FolderRoot>) -> Map<Seq<char>, Seq<char>> {
    Map::new(
        |name: Seq<char>| names_of(roots).contains(name),
        |name: Seq<char>| roots[names_of(roots).index_of(name)].path@,
    )
}

impl View for FolderRoots {
    type V = Map<Seq<char>, Seq<char>>;

    closed spec fn view(&self) -> Map<Seq<char>, Seq<char>> {
        folders_of(self.roots@)
    }
}

impl FolderRoots {
    #[verifier::type_invariant]
    spec fn names_differ(self) -> bool {
        names_of(self.roots@).no_duplicates()
    }

    /// The names, in the order in which the folders are listed.
    pub closed spec fn names(self) -> Seq<Seq<char>> {
        names_of(self.roots@)
    }

    /// No folders.
    pub fn new() -> (out: FolderRoots)
        ensures
            out@ == Map::<Seq<char>, Seq<char>>::empty(),
    {
        let out: FolderRoots = FolderRoots { roots: Vec::new() };
        assert(out@ =~= Map::<Seq<char>, Seq<char>>::empty());
        out
    }

    /// Shares the folder at `path` under `name`, in place of the one that had the name.
    pub fn insert(&mut self, name: String, path: String)
        ensures
            final(self)@ == old(self)@.insert(name@, path@),
    {
        proof {
            use_type_invariant(&*self);
        }
        let mut roots: Vec<FolderRoot> = Vec::new();
        std::mem::swap(&mut roots, &mut self.roots);
        let ghost before = roots@;
        let mut i: usize = 0;
        while i < roots.len() && !str_eq(roots[i].name.as_str(), name.as_str())
            invariant
                i <= roots@.len(),
                forall|j: int| 0 <= j < i ==> roots@[j].name@ != name@,
            decreases roots@.len() - i,
        {
            i = i + 1;
        }
        let ghost name_text = name@;
        let ghost path_text = path@;
        if i < roots.len() {
            roots.set(i, FolderRoot { name, path });
            proof {
                assert(names_of(roots@) =~= names_of(before));
                lemma_folder(roots@, i as int);
            }
        } else {
            roots.push(FolderRoot { name, path });
            proof {
                assert(names_of(roots@) =~= names_of(before).push(name_text));
                lemma_folder(roots@, i as int);
            }
        }
        proof {
            assert(folders_of(roots@) =~= folders_of(before).insert(name_text, path_text)) by {
                assert forall|other: Seq<char>| #[trigger]
                    folders_of(before).insert(name_text, path_text).dom().contains(other)
                        == folders_of(roots@).dom().contains(other) by {
                    lemma_dom(before, roots@, i as int, other);
                }
                assert forall|other: Seq<char>| #[trigger]
                    folders_of(roots@).dom().contains(other) implies folders_of(roots@)[other]
                    == folders_of(before).insert(name_text, path_text)[other] by {
                    lemma_dom(before, roots@, i as int, other);
                    if other != name_text {
                        let k = names_of(before).index_of(other);
                        assert(names_of(before)[k] == other);
                        lemma_folder(before, k);
                        assert(names_of(roots@)[k] == other);
                        lemma_folder(roots@, k);
                    }
                }
            }
        }
        self.roots = roots;
    }
}

/// With names that differ, the folder under a name is the one that is listed with it.
proof fn lemma_folder(roots: Seq<FolderRoot>, i: int)
    requires
        names_of(roots).no_duplicates(),
        0 <= i < roots.len(),
    ensures
        folders_of(roots).dom().contains(roots[i].name@),
        folders_of(roots)[roots[i].name@] == roots[i].path@,
{
    let name = roots[i].name@;
    assert(names_of(roots)[i] == name);
    assert(names_of(roots).contains(name));
    let k = names_of(roots).index_of(name);
    assert(names_of(roots)[k] == name);
    assert(k == i);
}

/// Writing position `i`, or one past the end, changes the names by at most the one written.
proof fn lemma_dom(before: Seq<FolderRoot>, after: Seq<FolderRoot>, i: int, other: Seq<char>)
    requires
        0 <= i < after.len(),
        before.len() == after.len() || before.len() == i == after.len() - 1,
        i < before.len() ==> before[i].name@ == after[i].name@,
        forall|j: int| 0 <= j < before.len() && j != i ==> before[j] == after[j],
    ensures
        names_of(after).contains(other) <==> names_of(before).contains(other) || other
            == after[i].name@,
{
    if names_of(after).contains(other) {
        let k = choose|k: int| 0 <= k < names_of(after).len() && names_of(after)[k] == other;
        if k < before.len() {
            assert(names_of(before)[k] == other);
        }
    }
    if names_of(before).contains(other) {
        let k = choose|k: int| 0 <= k < names_of(before).len() && names_of(before)[k] == other;
        assert(names_of(after)[k] == other);
    }
    assert(names_of(after)[i] == after[i].name@);
}

impl FolderRoots {
    /// Where the folder that is shared under `name` lies.
    pub fn get(&self, name: &str) -> (out: Option<&str>)
        ensures
            match out {
                Some(path) => self@.dom().contains(name@) && self@[name@] == path@,
                None => !self@.dom().contains(name@),
            },
    {
        proof {
            use_type_invariant(self);
        }
        let mut i: usize = 0;
        while i < self.roots.len()
            invariant
                names_of(self.roots@).no_duplicates(),
                i <= self.roots@.len(),
                forall|j: int| 0 <= j < i ==> names_of(self.roots@)[j] != name@,
            decreases self.roots@.len() - i,
        {
            if str_eq(self.roots[i].name.as_str(), name) {
                proof {
                    lemma_folder(self.roots@, i as int);
                }
                return Some(self.roots[i].path.as_str());
            }
            i = i + 1;
        }
        None
    }

    /// The names under which folders are shared, each once.
    pub fn list_names(&self) -> (out: Vec<String>)
        ensures
            out@.len() == self.names().len(),
            forall|i: int| 0 <= i < out@.len() ==> (#[trigger] out@[i])@ == self.names()[i],
            self.names().no_duplicates(),
            self.names().to_set() == self@.dom(),
    {
        proof {
            use_type_invariant(self);
        }
        let mut out: Vec<String> = Vec::new();
        let mut i: usize = 0;
        while i < self.roots.len()
            invariant
                i <= self.roots@.len(),
                out@.len() == i,
                forall|j: int| 0 <= j < i ==> (#[trigger] out@[j])@ == self.names()[j],
            decreases self.roots@.len() - i,
        {
            out.push(self.roots[i].name.clone());
            i = i + 1;
        }
        assert(self.names().to_set() =~= self@.dom());
        out
    }
}

} // verus!
