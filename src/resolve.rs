//! The resolver: an index from file name to the full path of the first
//! regular file of that name along an ordered list of directories.

use vstd::prelude::*;

verus! {

/// One entry of a directory listing: its file name, its full path, and
/// whether it is a regular file.
pub struct FileEntry {
    pub file_name: String,
    pub full_path: String,
    pub is_file: bool,
}

/// One directory of the search path: absent (missing, or not a directory),
/// or the list of its direct entries.
pub enum SearchDir {
    Missing,
    Listed(Vec<FileEntry>),
}

/// A directory entry as values.
pub struct FileEntryView {
    pub name: Seq<char>,
    pub path: Seq<char>,
    pub is_file: bool,
}

/// A directory of the search path as values.
pub enum SearchDirView {
    Missing,
    Listed(Seq<FileEntryView>),
}

impl View for FileEntry {
    type V = FileEntryView;

    open spec fn view(&self) -> FileEntryView {
        FileEntryView { name: self.file_name@, path: self.full_path@, is_file: self.is_file }
    }
}

impl View for SearchDir {
    type V = SearchDirView;

    open spec fn view(&self) -> SearchDirView {
        match self {
            SearchDir::Missing => SearchDirView::Missing,
            SearchDir::Listed(entries) => SearchDirView::Listed(
                entries@.map_values(|e: FileEntry| e@),
            ),
        }
    }
}

/// The directories of a search path, as values.
pub open spec fn dirs_view(dirs: Seq<SearchDir>) -> Seq<SearchDirView> {
    dirs.map_values(|d: SearchDir| d@)
}

/// `m` after the entries of one directory, in order: a regular file is
/// added unless its name is already there.
pub open spec fn add_entries(m: Map<Seq<char>, Seq<char>>, es: Seq<FileEntryView>) -> Map<
    Seq<char>,
    Seq<char>,
>
    decreases es.len(),
{
    if es.len() == 0 {
        m
    } else {
        let prev = add_entries(m, es.drop_last());
        let e = es.last();
        if e.is_file && !prev.contains_key(e.name) {
            prev.insert(e.name, e.path)
        } else {
            prev
        }
    }
}

pub open spec fn add_dir(m: Map<Seq<char>, Seq<char>>, d: SearchDirView) -> Map<
    Seq<char>,
    Seq<char>,
> {
    match d {
        SearchDirView::Missing => m,
        SearchDirView::Listed(es) => add_entries(m, es),
    }
}

/// `m` after the directories, in order.
pub open spec fn index_from(m: Map<Seq<char>, Seq<char>>, dirs: Seq<SearchDirView>) -> Map<
    Seq<char>,
    Seq<char>,
>
    decreases dirs.len(),
{
    if dirs.len() == 0 {
        m
    } else {
        add_dir(index_from(m, dirs.drop_last()), dirs.last())
    }
}

/// The index of a search path.
pub open spec fn index_of(dirs: Seq<SearchDirView>) -> Map<Seq<char>, Seq<char>> {
    index_from(Map::empty(), dirs)
}

/// The directory is listed and holds a regular file named `name`.
pub open spec fn lists_file(d: SearchDirView, name: Seq<char>) -> bool {
    d matches SearchDirView::Listed(es) && exists|k: int|
        0 <= k < es.len() && (#[trigger] es[k]).is_file && es[k].name == name
}

proof fn lemma_add_entries_keeps(m: Map<Seq<char>, Seq<char>>, es: Seq<FileEntryView>, n: Seq<char>)
    requires
        m.contains_key(n),
    ensures
        add_entries(m, es).contains_key(n),
        add_entries(m, es)[n] == m[n],
    decreases es.len(),
{
    if es.len() > 0 {
        lemma_add_entries_keeps(m, es.drop_last(), n);
    }
}

proof fn lemma_add_entries_domain(m: Map<Seq<char>, Seq<char>>, es: Seq<FileEntryView>, n: Seq<char>)
    ensures
        add_entries(m, es).contains_key(n) <==> m.contains_key(n) || exists|k: int|
            0 <= k < es.len() && (#[trigger] es[k]).is_file && es[k].name == n,
    decreases es.len(),
{
    if es.len() > 0 {
        let init = es.drop_last();
        lemma_add_entries_domain(m, init, n);
        if exists|k: int| 0 <= k < init.len() && (#[trigger] init[k]).is_file && init[k].name == n {
            let k = choose|k: int| 0 <= k < init.len() && (#[trigger] init[k]).is_file && init[k].name == n;
            assert(es[k] == init[k]);
        }
        if exists|k: int| 0 <= k < es.len() && (#[trigger] es[k]).is_file && es[k].name == n {
            let k = choose|k: int| 0 <= k < es.len() && (#[trigger] es[k]).is_file && es[k].name == n;
            if k < es.len() - 1 {
                assert(init[k] == es[k]);
            }
        }
    }
}

proof fn lemma_add_entries_first(m: Map<Seq<char>, Seq<char>>, es: Seq<FileEntryView>, k: int)
    requires
        0 <= k < es.len(),
        es[k].is_file,
        !m.contains_key(es[k].name),
        forall|j: int| 0 <= j < k ==> !((#[trigger] es[j]).is_file && es[j].name == es[k].name),
    ensures
        add_entries(m, es).contains_key(es[k].name),
        add_entries(m, es)[es[k].name] == es[k].path,
    decreases es.len(),
{
    let init = es.drop_last();
    if k == es.len() - 1 {
        lemma_add_entries_domain(m, init, es[k].name);
        if exists|j: int| 0 <= j < init.len() && (#[trigger] init[j]).is_file && init[j].name == es[k].name {
            let j = choose|j: int| 0 <= j < init.len() && (#[trigger] init[j]).is_file && init[j].name == es[k].name;
            assert(es[j] == init[j]);
        }
    } else {
        assert(init[k] == es[k]);
        assert forall|j: int| 0 <= j < k implies !((#[trigger] init[j]).is_file && init[j].name == init[k].name) by {
            assert(init[j] == es[j]);
        }
        lemma_add_entries_first(m, init, k);
    }
}

proof fn lemma_index_from_keeps(m: Map<Seq<char>, Seq<char>>, dirs: Seq<SearchDirView>, n: Seq<char>)
    requires
        m.contains_key(n),
    ensures
        index_from(m, dirs).contains_key(n),
        index_from(m, dirs)[n] == m[n],
    decreases dirs.len(),
{
    if dirs.len() > 0 {
        lemma_index_from_keeps(m, dirs.drop_last(), n);
        if let SearchDirView::Listed(es) = dirs.last() {
            lemma_add_entries_keeps(index_from(m, dirs.drop_last()), es, n);
        }
    }
}

proof fn lemma_index_from_domain(m: Map<Seq<char>, Seq<char>>, dirs: Seq<SearchDirView>, n: Seq<char>)
    ensures
        index_from(m, dirs).contains_key(n) <==> m.contains_key(n) || exists|a: int|
            0 <= a < dirs.len() && lists_file(#[trigger] dirs[a], n),
    decreases dirs.len(),
{
    if dirs.len() > 0 {
        let init = dirs.drop_last();
        lemma_index_from_domain(m, init, n);
        if let SearchDirView::Listed(es) = dirs.last() {
            lemma_add_entries_domain(index_from(m, init), es, n);
        }
        if exists|a: int| 0 <= a < init.len() && lists_file(#[trigger] init[a], n) {
            let a = choose|a: int| 0 <= a < init.len() && lists_file(#[trigger] init[a], n);
            assert(dirs[a] == init[a]);
        }
        if exists|a: int| 0 <= a < dirs.len() && lists_file(#[trigger] dirs[a], n) {
            let a = choose|a: int| 0 <= a < dirs.len() && lists_file(#[trigger] dirs[a], n);
            if a < dirs.len() - 1 {
                assert(init[a] == dirs[a]);
            }
        }
    }
}

proof fn lemma_index_from_concat(
    m: Map<Seq<char>, Seq<char>>,
    first: Seq<SearchDirView>,
    then: Seq<SearchDirView>,
)
    ensures
        index_from(m, first + then) == index_from(index_from(m, first), then),
    decreases then.len(),
{
    if then.len() == 0 {
        assert(first + then =~= first);
    } else {
        assert((first + then).drop_last() =~= first + then.drop_last());
        assert((first + then).last() == then.last());
        lemma_index_from_concat(m, first, then.drop_last());
    }
}

/// A name is in the index exactly when some listed directory of the search
/// path holds a regular file of that name.
pub proof fn lemma_index_holds_listed_files(dirs: Seq<SearchDirView>, name: Seq<char>)
    ensures
        index_of(dirs).contains_key(name) <==> exists|a: int|
            0 <= a < dirs.len() && lists_file(#[trigger] dirs[a], name),
{
    lemma_index_from_domain(Map::empty(), dirs, name);
}

/// Directories later in the search path never replace what earlier ones
/// put in the index.
pub proof fn lemma_earlier_directories_win(
    earlier: Seq<SearchDirView>,
    later: Seq<SearchDirView>,
    name: Seq<char>,
)
    requires
        index_of(earlier).contains_key(name),
    ensures
        index_of(earlier + later).contains_key(name),
        index_of(earlier + later)[name] == index_of(earlier)[name],
{
    lemma_index_from_concat(Map::empty(), earlier, later);
    lemma_index_from_keeps(index_of(earlier), later, name);
}

/// When a directory holds a regular file and no earlier directory holds a
/// regular file of the same name, the index maps that name to this file's
/// path, whatever directories follow.
pub proof fn lemma_first_directory_wins(
    earlier: Seq<SearchDirView>,
    entries: Seq<FileEntryView>,
    k: int,
    later: Seq<SearchDirView>,
)
    requires
        0 <= k < entries.len(),
        entries[k].is_file,
        forall|a: int| 0 <= a < earlier.len() ==> !lists_file(#[trigger] earlier[a], entries[k].name),
        forall|j: int|
            0 <= j < k ==> !((#[trigger] entries[j]).is_file && entries[j].name == entries[k].name),
    ensures
        index_of(earlier + seq![SearchDirView::Listed(entries)] + later).contains_key(
            entries[k].name,
        ),
        index_of(earlier + seq![SearchDirView::Listed(entries)] + later)[entries[k].name]
            == entries[k].path,
{
    let name = entries[k].name;
    let dir = seq![SearchDirView::Listed(entries)];
    lemma_index_from_domain(Map::empty(), earlier, name);
    lemma_index_from_concat(Map::empty(), earlier, dir);
    assert(dir.drop_last() =~= Seq::<SearchDirView>::empty());
    assert(!index_of(earlier).contains_key(name));
    assert(dir.last() == SearchDirView::Listed(entries));
    assert(index_from(index_of(earlier), dir.drop_last()) == index_of(earlier));
    assert(index_from(index_of(earlier), dir) == add_entries(index_of(earlier), entries));
    lemma_add_entries_first(index_of(earlier), entries, k);
    assert(index_of(earlier + dir) == add_entries(index_of(earlier), entries));
    lemma_earlier_directories_win(earlier + dir, later, name);
}

/// A missing directory, wherever it stands in the search path, adds
/// nothing to the index.
pub proof fn lemma_missing_directory_adds_nothing(
    before: Seq<SearchDirView>,
    after: Seq<SearchDirView>,
)
    ensures
        index_of(before + seq![SearchDirView::Missing] + after) == index_of(before + after),
{
    let missing = seq![SearchDirView::Missing];
    lemma_index_from_concat(Map::empty(), before + missing, after);
    lemma_index_from_concat(Map::empty(), before, missing);
    assert(missing.drop_last() =~= Seq::<SearchDirView>::empty());
    assert(missing.last() == SearchDirView::Missing);
    assert(index_from(index_of(before), missing.drop_last()) == index_of(before));
    assert(index_from(index_of(before), missing) == index_of(before));
    lemma_index_from_concat(Map::empty(), before, after);
}

/// The map whose keys are the first components, as held by a list of pairs.
pub open spec fn map_of(s: Seq<(String, String)>) -> Map<Seq<char>, Seq<char>>
    decreases s.len(),
{
    if s.len() == 0 {
        Map::empty()
    } else {
        map_of(s.drop_last()).insert(s.last().0@, s.last().1@)
    }
}

/// Index from executable name to full path. Each name occurs once.
pub struct ExecutableIndex {
    entries: Vec<(String, String)>,
}

impl View for ExecutableIndex {
    type V = Map<Seq<char>, Seq<char>>;

    closed spec fn view(&self) -> Map<Seq<char>, Seq<char>> {
        map_of(self.entries@)
    }
}

proof fn lemma_map_of_domain(s: Seq<(String, String)>, k: Seq<char>)
    ensures
        map_of(s).contains_key(k) <==> exists|i: int| 0 <= i < s.len() && (#[trigger] s[i]).0@ == k,
    decreases s.len(),
{
    if s.len() > 0 {
        lemma_map_of_domain(s.drop_last(), k);
        if map_of(s.drop_last()).contains_key(k) {
            let i = choose|i: int| 0 <= i < s.drop_last().len() && (#[trigger] s.drop_last()[i]).0@ == k;
            assert(s[i] == s.drop_last()[i]);
        }
        if exists|i: int| 0 <= i < s.len() && (#[trigger] s[i]).0@ == k {
            let i = choose|i: int| 0 <= i < s.len() && (#[trigger] s[i]).0@ == k;
            if i < s.len() - 1 {
                assert(s.drop_last()[i] == s[i]);
            }
        }
    }
}

proof fn lemma_map_of_at(s: Seq<(String, String)>, i: int)
    requires
        0 <= i < s.len(),
        forall|a: int, b: int| 0 <= a < b < s.len() ==> (#[trigger] s[a]).0@ != (#[trigger] s[b]).0@,
    ensures
        map_of(s).contains_key(s[i].0@),
        map_of(s)[s[i].0@] == s[i].1@,
    decreases s.len(),
{
    if i < s.len() - 1 {
        assert(s.drop_last()[i] == s[i]);
        lemma_map_of_at(s.drop_last(), i);
        assert(s[i].0@ != s[s.len() - 1].0@);
    }
}

impl ExecutableIndex {
    /// Each name occurs once.
    pub closed spec fn wf(&self) -> bool {
        forall|a: int, b: int|
            0 <= a < b < self.entries@.len() ==> (#[trigger] self.entries@[a]).0@ != (
            #[trigger] self.entries@[b]).0@
    }

    /// The empty index.
    pub fn new() -> (r: ExecutableIndex)
        ensures
            r.wf(),
            r@ == Map::<Seq<char>, Seq<char>>::empty(),
    {
        ExecutableIndex { entries: Vec::new() }
    }

    /// A copy of the index.
    pub fn duplicate(&self) -> (r: ExecutableIndex)
        requires
            self.wf(),
        ensures
            r.wf(),
            r@ == self@,
    {
        let n = self.entries.len();
        let mut entries: Vec<(String, String)> = Vec::new();
        let mut i: usize = 0;
        while i < n
            invariant
                n == self.entries@.len(),
                i <= n,
                entries@ == self.entries@.take(i as int),
            decreases n - i,
        {
            let name = self.entries[i].0.clone();
            let path = self.entries[i].1.clone();
            entries.push((name, path));
            assert(entries@ =~= self.entries@.take(i + 1));
            i = i + 1;
        }
        assert(entries@ =~= self.entries@);
        ExecutableIndex { entries }
    }

    /// The position of `name` among the entries.
    fn find(&self, name: &String) -> (r: Option<usize>)
        requires
            self.wf(),
        ensures
            match r {
                Some(i) => i < self.entries@.len() && self.entries@[i as int].0@ == name@
                    && self@.contains_key(name@) && self@[name@] == self.entries@[i as int].1@,
                None => !self@.contains_key(name@),
            },
    {
        let n = self.entries.len();
        let mut i: usize = 0;
        while i < n
            invariant
                n == self.entries@.len(),
                i <= n,
                self.wf(),
                forall|j: int| 0 <= j < i ==> (#[trigger] self.entries@[j]).0@ != name@,
            decreases n - i,
        {
            if self.entries[i].0 == *name {
                proof {
                    lemma_map_of_at(self.entries@, i as int);
                }
                return Some(i);
            }
            i = i + 1;
        }
        proof {
            lemma_map_of_domain(self.entries@, name@);
        }
        None
    }

    /// Whether `name` is in the index.
    pub fn contains_key(&self, name: &str) -> (r: bool)
        requires
            self.wf(),
        ensures
            r == self@.contains_key(name@),
    {
        let key = name.to_owned();
        self.find(&key).is_some()
    }

    /// The full path indexed under `name`, if any.
    pub fn get(&self, name: &str) -> (r: Option<String>)
        requires
            self.wf(),
        ensures
            r.deep_view() == (if self@.contains_key(name@) {
                Some(self@[name@])
            } else {
                None
            }),
    {
        let key = name.to_owned();
        match self.find(&key) {
            Some(i) => Some(self.entries[i].1.clone()),
            None => None,
        }
    }

    /// Adds `name` with `path` unless `name` is already indexed.
    fn insert_if_absent(&mut self, name: &String, path: &String)
        requires
            old(self).wf(),
        ensures
            final(self).wf(),
            final(self)@ == (if old(self)@.contains_key(name@) {
                old(self)@
            } else {
                old(self)@.insert(name@, path@)
            }),
    {
        match self.find(name) {
            Some(_) => {},
            None => {
                proof {
                    lemma_map_of_domain(self.entries@, name@);
                }
                let ghost before = self.entries@;
                self.entries.push((name.clone(), path.clone()));
                assert(self.entries@.drop_last() == before);
                assert forall|a: int, b: int|
                    0 <= a < b < self.entries@.len() implies (#[trigger] self.entries@[a]).0@ != (
                    #[trigger] self.entries@[b]).0@ by {
                    if b == self.entries@.len() - 1 {
                        assert(before[a] == self.entries@[a]);
                    } else {
                        assert(before[a] == self.entries@[a]);
                        assert(before[b] == self.entries@[b]);
                    }
                }
            },
        }
    }
}

/// Builds the index of a search path: each directory in order, each listed
/// regular file in order, a name taken only on its first occurrence.
/// Missing directories are passed over.
pub fn get_binaries_from_paths(paths: Vec<SearchDir>) -> (r: ExecutableIndex)
    ensures
        r.wf(),
        r@ == index_of(dirs_view(paths@)),
{
    let mut binaries = ExecutableIndex::new();
    let n = paths.len();
    let mut i: usize = 0;
    while i < n
        invariant
            n == paths@.len(),
            i <= n,
            binaries.wf(),
            binaries@ == index_of(dirs_view(paths@).take(i as int)),
        decreases n - i,
    {
        proof {
            assert(dirs_view(paths@).take(i + 1).drop_last() =~= dirs_view(paths@).take(i as int));
        }
        match &paths[i] {
            SearchDir::Missing => {},
            SearchDir::Listed(entries) => {
                let ghost start = binaries@;
                let m = entries.len();
                let mut j: usize = 0;
                while j < m
                    invariant
                        m == entries@.len(),
                        j <= m,
                        binaries.wf(),
                        binaries@ == add_entries(
                            start,
                            entries@.map_values(|e: FileEntry| e@).take(j as int),
                        ),
                    decreases m - j,
                {
                    proof {
                        assert(entries@.map_values(|e: FileEntry| e@).take(j + 1).drop_last()
                            =~= entries@.map_values(|e: FileEntry| e@).take(j as int));
                    }
                    let e = &entries[j];
                    if e.is_file {
                        binaries.insert_if_absent(&e.file_name, &e.full_path);
                    }
                    j = j + 1;
                }
                assert(entries@.map_values(|e: FileEntry| e@).take(m as int) =~= entries@.map_values(
                    |e: FileEntry| e@,
                ));
            },
        }
        i = i + 1;
    }
    assert(dirs_view(paths@).take(n as int) =~= dirs_view(paths@));
    binaries
}

} // verus!
