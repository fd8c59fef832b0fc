use vstd::prelude::*;
use crate::text::{chars_of, string_of, same_text};
use crate::tokenize::strings_view;

verus! {

/// The separator between directories in the search-path variable.
pub const PATH_SEPARATOR: char = ':';

/// The pieces of `s` between occurrences of `sep`; `s` without `sep` is one
/// piece, and a separator at either end gives an empty piece there.
pub open spec fn split_on(s: Seq<char>, sep: char) -> Seq<Seq<char>>
    decreases s.len(),
{
    if s.len() == 0 {
        seq![Seq::<char>::empty()]
    } else {
        let prev = split_on(s.drop_last(), sep);
        if s.last() == sep {
            prev.push(Seq::<char>::empty())
        } else {
            prev.update(prev.len() - 1, prev.last().push(s.last()))
        }
    }
}

/// Splits the search-path variable into its directories, in order.
pub fn split_search_path(path_var: &str) -> (r: Vec<String>)
    ensures
        strings_view(r@) == split_on(path_var@, PATH_SEPARATOR),
{
    let chars = chars_of(path_var);
    let mut parts: Vec<String> = Vec::new();
    let mut cur: Vec<char> = Vec::new();
    let mut i: usize = 0;
    proof {
        assert(chars@.take(0) =~= Seq::<char>::empty());
        assert(strings_view(parts@).push(cur@) =~= seq![Seq::<char>::empty()]);
    }
    while i < chars.len()
        invariant
            chars@ == path_var@,
            0 <= i <= chars.len(),
            strings_view(parts@).push(cur@) == split_on(chars@.take(i as int), PATH_SEPARATOR),
        decreases chars.len() - i,
    {
        let c = chars[i];
        let ghost before = chars@.take(i as int);
        let ghost prev = split_on(before, PATH_SEPARATOR);
        assert(chars@.take(i + 1).drop_last() =~= before);
        assert(chars@.take(i + 1).last() == c);
        if c == PATH_SEPARATOR {
            let piece = string_of(&cur);
            parts.push(piece);
            cur = Vec::new();
            assert(strings_view(parts@) =~= prev);
            assert(strings_view(parts@).push(cur@) =~= prev.push(Seq::<char>::empty()));
        } else {
            cur.push(c);
            assert(strings_view(parts@).push(cur@) =~= prev.update(
                prev.len() - 1,
                prev.last().push(c),
            ));
        }
        i = i + 1;
    }
    let last = string_of(&cur);
    parts.push(last);
    assert(chars@.take(chars.len() as int) =~= chars@);
    assert(strings_view(parts@) =~= split_on(path_var@, PATH_SEPARATOR));
    parts
}

/// One entry of a directory listing, as the file system reported it.
#[derive(Debug, Clone)]
pub struct DirEntryInfo {
    /// The file name within its directory.
    pub name: String,
    /// The full path of the file.
    pub path: String,
    /// Whether it is a regular file.
    pub is_file: bool,
    /// Its permission bits.
    pub mode: u32,
}

/// A regular file with an execute bit set for its owner, group or others.
pub open spec fn runnable(e: DirEntryInfo) -> bool {
    e.is_file && e.mode & 0o111u32 != 0
}

/// Whether the entry is a file that may be run.
pub fn is_runnable(e: &DirEntryInfo) -> (r: bool)
    ensures
        r == runnable(*e),
{
    e.is_file && e.mode & 0o111u32 != 0
}

/// The path of the first runnable entry of the listing named `name`.
pub open spec fn first_in_listing(entries: Seq<DirEntryInfo>, name: Seq<char>) -> Option<
    Seq<char>,
>
    decreases entries.len(),
{
    if entries.len() == 0 {
        None
    } else {
        match first_in_listing(entries.drop_last(), name) {
            Some(p) => Some(p),
            None => if runnable(entries.last()) && entries.last().name@ == name {
                Some(entries.last().path@)
            } else {
                None
            },
        }
    }
}

/// The path that the directories, searched in order, give for `name`.
pub open spec fn first_in_dirs(dirs: Seq<Seq<DirEntryInfo>>, name: Seq<char>) -> Option<
    Seq<char>,
>
    decreases dirs.len(),
{
    if dirs.len() == 0 {
        None
    } else {
        match first_in_dirs(dirs.drop_last(), name) {
            Some(p) => Some(p),
            None => first_in_listing(dirs.last(), name),
        }
    }
}

/// `a` where it holds a path, else `b`.
pub open spec fn either(a: Option<Seq<char>>, b: Option<Seq<char>>) -> Option<Seq<char>> {
    if a is Some {
        a
    } else {
        b
    }
}

/// What a map from names to paths gives for `name`.
pub open spec fn lookup_of(m: Map<Seq<char>, Seq<char>>, name: Seq<char>) -> Option<Seq<char>> {
    if m.contains_key(name) {
        Some(m[name])
    } else {
        None
    }
}

/// The directory listings as sequences of entries.
pub open spec fn listings_view(dirs: Seq<Vec<DirEntryInfo>>) -> Seq<Seq<DirEntryInfo>> {
    dirs.map_values(|d: Vec<DirEntryInfo>| d@)
}

proof fn lemma_first_holder(dirs: Seq<Seq<DirEntryInfo>>, name: Seq<char>, i: int)
    requires
        0 <= i < dirs.len(),
        first_in_listing(dirs[i], name) is Some,
        forall|k: int| 0 <= k < i ==> #[trigger] first_in_listing(dirs[k], name) is None,
    ensures
        first_in_dirs(dirs, name) == first_in_listing(dirs[i], name),
    decreases dirs.len(),
{
    if i < dirs.len() - 1 {
        lemma_first_holder(dirs.drop_last(), name, i);
    } else {
        lemma_none_before(dirs.drop_last(), name);
    }
}

proof fn lemma_none_before(dirs: Seq<Seq<DirEntryInfo>>, name: Seq<char>)
    requires
        forall|k: int| 0 <= k < dirs.len() ==> #[trigger] first_in_listing(dirs[k], name) is None,
    ensures
        first_in_dirs(dirs, name) is None,
    decreases dirs.len(),
{
    if dirs.len() > 0 {
        lemma_none_before(dirs.drop_last(), name);
    }
}

/// When a name is runnable in two search-path directories, the path comes
/// from the earlier one: the first directory holding the name wins.
pub proof fn lemma_earlier_directory_wins(
    dirs: Seq<Seq<DirEntryInfo>>,
    name: Seq<char>,
    i: int,
    j: int,
)
    requires
        0 <= i < j < dirs.len(),
        first_in_listing(dirs[i], name) is Some,
        first_in_listing(dirs[j], name) is Some,
        forall|k: int| 0 <= k < i ==> #[trigger] first_in_listing(dirs[k], name) is None,
    ensures
        first_in_dirs(dirs, name) == first_in_listing(dirs[i], name),
{
    lemma_first_holder(dirs, name, i);
}

/// Directories later on the search path never override a name that an
/// earlier directory already gave a path.
pub proof fn lemma_later_directories_never_override(
    dirs: Seq<Seq<DirEntryInfo>>,
    more: Seq<Seq<DirEntryInfo>>,
    name: Seq<char>,
)
    requires
        first_in_dirs(dirs, name) is Some,
    ensures
        first_in_dirs(dirs + more, name) == first_in_dirs(dirs, name),
    decreases more.len(),
{
    if more.len() == 0 {
        assert(dirs + more =~= dirs);
    } else {
        lemma_later_directories_never_override(dirs, more.drop_last(), name);
        assert((dirs + more).drop_last() =~= dirs + more.drop_last());
    }
}

/// An executable's name and the path it was found at.
pub struct IndexEntry {
    pub name: String,
    pub path: String,
}

/// The map that a sequence of entries describes; of two entries with one
/// name, the earlier one counts.
pub open spec fn entries_map(s: Seq<IndexEntry>) -> Map<Seq<char>, Seq<char>>
    decreases s.len(),
{
    if s.len() == 0 {
        Map::empty()
    } else {
        let m = entries_map(s.drop_last());
        if m.contains_key(s.last().name@) {
            m
        } else {
            m.insert(s.last().name@, s.last().path@)
        }
    }
}

proof fn lemma_entries_map_extends(s: Seq<IndexEntry>, k: int)
    requires
        0 <= k <= s.len(),
    ensures
        forall|n: Seq<char>| #[trigger]
            entries_map(s.take(k)).contains_key(n) ==> entries_map(s).contains_key(n)
                && entries_map(s)[n] == entries_map(s.take(k))[n],
    decreases s.len() - k,
{
    if k < s.len() {
        lemma_entries_map_extends(s, k + 1);
        let t = s.take(k + 1);
        assert(t.drop_last() =~= s.take(k));
        assert forall|n: Seq<char>| #[trigger]
            entries_map(s.take(k)).contains_key(n) implies entries_map(t).contains_key(n)
                && entries_map(t)[n] == entries_map(s.take(k))[n] by {
            assert(entries_map(t) == (if entries_map(s.take(k)).contains_key(t.last().name@) {
                entries_map(s.take(k))
            } else {
                entries_map(s.take(k)).insert(t.last().name@, t.last().path@)
            }));
        }
    } else {
        assert(s.take(k) =~= s);
    }
}

/// The executables found on the search path: at most one path for each name.
pub struct ExecutableIndex {
    entries: Vec<IndexEntry>,
}

impl View for ExecutableIndex {
    type V = Map<Seq<char>, Seq<char>>;

    closed spec fn view(&self) -> Map<Seq<char>, Seq<char>> {
        entries_map(self.entries@)
    }
}

impl ExecutableIndex {
    /// An index with no executables.
    pub fn new() -> (r: ExecutableIndex)
        ensures
            r@ == Map::<Seq<char>, Seq<char>>::empty(),
    {
        ExecutableIndex { entries: Vec::new() }
    }

    /// The path recorded for `name`, if any.
    pub fn lookup(&self, name: &str) -> (r: Option<String>)
        ensures
            r is Some <==> self@.contains_key(name@),
            r is Some ==> r->0@ == self@[name@],
    {
        let mut i: usize = 0;
        while i < self.entries.len()
            invariant
                0 <= i <= self.entries.len(),
                !entries_map(self.entries@.take(i as int)).contains_key(name@),
            decreases self.entries.len() - i,
        {
            assert(self.entries@.take(i + 1).drop_last() =~= self.entries@.take(i as int));
            assert(self.entries@.take(i + 1).last() == self.entries@[i as int]);
            if same_text(self.entries[i].name.as_str(), name) {
                proof {
                    lemma_entries_map_extends(self.entries@, i + 1);
                    assert(entries_map(self.entries@.take(i + 1)).contains_key(name@));
                }
                return Some(self.entries[i].path.clone());
            }
            i = i + 1;
        }
        assert(self.entries@.take(i as int) =~= self.entries@);
        None
    }

    /// Whether `name` has a recorded path.
    pub fn contains(&self, name: &str) -> (r: bool)
        ensures
            r == self@.contains_key(name@),
    {
        self.lookup(name).is_some()
    }

    /// Records `path` for `name` unless `name` already has a path.
    pub fn insert_if_absent(&mut self, name: String, path: String)
        ensures
            final(self)@ == (if old(self)@.contains_key(name@) {
                old(self)@
            } else {
                old(self)@.insert(name@, path@)
            }),
    {
        if !self.contains(name.as_str()) {
            let ghost before = self.entries@;
            self.entries.push(IndexEntry { name, path });
            assert(self.entries@.drop_last() =~= before);
        }
    }

    /// Adds the runnable entries of one directory listing; names that already
    /// have a path keep it.
    pub fn add_listing(&mut self, listing: &Vec<DirEntryInfo>)
        ensures
            forall|n: Seq<char>| #[trigger]
                lookup_of(final(self)@, n) == either(
                    lookup_of(old(self)@, n),
                    first_in_listing(listing@, n),
                ),
    {
        let mut i: usize = 0;
        while i < listing.len()
            invariant
                0 <= i <= listing.len(),
                forall|n: Seq<char>| #[trigger]
                    lookup_of(self@, n) == either(
                        lookup_of(old(self)@, n),
                        first_in_listing(listing@.take(i as int), n),
                    ),
            decreases listing.len() - i,
        {
            let e = &listing[i];
            let ghost before = self@;
            let ghost t = listing@.take(i + 1);
            assert(t.drop_last() =~= listing@.take(i as int));
            assert(t.last() == *e);
            if is_runnable(e) {
                self.insert_if_absent(e.name.clone(), e.path.clone());
            }
            assert forall|n: Seq<char>| #[trigger]
                lookup_of(self@, n) == either(
                    lookup_of(old(self)@, n),
                    first_in_listing(t, n),
                ) by {
                assert(lookup_of(before, n) == either(
                    lookup_of(old(self)@, n),
                    first_in_listing(listing@.take(i as int), n),
                ));
            }
            i = i + 1;
        }
        assert(listing@.take(listing.len() as int) =~= listing@);
    }

    /// Builds the index from the listings of the search-path directories,
    /// in search-path order.
    pub fn build(dirs: &Vec<Vec<DirEntryInfo>>) -> (r: ExecutableIndex)
        ensures
            forall|n: Seq<char>| #[trigger]
                lookup_of(r@, n) == first_in_dirs(listings_view(dirs@), n),
    {
        let mut index = ExecutableIndex::new();
        let ghost all = listings_view(dirs@);
        let mut i: usize = 0;
        assert(all.take(0) =~= Seq::<Seq<DirEntryInfo>>::empty());
        while i < dirs.len()
            invariant
                0 <= i <= dirs.len(),
                all == listings_view(dirs@),
                forall|n: Seq<char>| #[trigger]
                    lookup_of(index@, n) == first_in_dirs(all.take(i as int), n),
            decreases dirs.len() - i,
        {
            assert(all.take(i + 1).drop_last() =~= all.take(i as int));
            assert(all.take(i + 1).last() == dirs@[i as int]@);
            index.add_listing(&dirs[i]);
            i = i + 1;
        }
        assert(all.take(dirs.len() as int) =~= all);
        index
    }
}

} // verus!
