//! In-memory model of the files the persistence adapter manages.
//!
//! A `Store` maps each path to the full text most recently saved
//! there, exactly as the save/load commands treat the filesystem:
//! a save creates or truncates the file at its path, a load returns
//! the whole content or nothing when the path holds no file.  The
//! persistence laws — round trip and overwrite-by-truncation — are
//! proved over the same map that `save` and `load` are specified
//! against.

use vstd::prelude::*;

verus! {

/// One saved document: the full content most recently written to a path.
struct Entry {
    path: String,
    content: String,
}

/// The map from path to content that a sequence of entries holds.
/// A later entry for a path overrides an earlier one, though a
/// well-formed store never keeps two entries for one path.
spec fn map_of(entries: Seq<Entry>) -> Map<Seq<char>, Seq<char>>
    decreases entries.len(),
{
    if entries.len() == 0 {
        Map::empty()
    } else {
        map_of(entries.drop_last()).insert(entries.last().path@, entries.last().content@)
    }
}

/// No two entries name the same path.
spec fn paths_distinct(entries: Seq<Entry>) -> bool {
    forall|i: int, j: int|
        0 <= i < j < entries.len() ==> entries[i].path@ != entries[j].path@
}

/// A path holds a file exactly when some entry names it.
proof fn lemma_map_of_dom(entries: Seq<Entry>, p: Seq<char>)
    ensures
        map_of(entries).contains_key(p) <==> exists|k: int|
            0 <= k < entries.len() && (#[trigger] entries[k]).path@ == p,
    decreases entries.len(),
{
    if entries.len() > 0 {
        lemma_map_of_dom(entries.drop_last(), p);
        if entries.last().path@ == p {
            assert(entries[entries.len() - 1].path@ == p);
        } else if map_of(entries).contains_key(p) {
            let k = choose|k: int|
                0 <= k < entries.drop_last().len() && (#[trigger] entries.drop_last()[k]).path@
                    == p;
            assert(entries[k].path@ == p);
        } else {
            assert forall|k: int|
                0 <= k < entries.len() && (#[trigger] entries[k]).path@ == p implies false by {
                assert(k < entries.len() - 1);
                assert(entries.drop_last()[k].path@ == p);
            }
        }
    }
}

/// With distinct paths, the entry at `i` gives the content mapped
/// to its path.
proof fn lemma_map_of_at(entries: Seq<Entry>, i: int)
    requires
        paths_distinct(entries),
        0 <= i < entries.len(),
    ensures
        map_of(entries).contains_key(entries[i].path@),
        map_of(entries)[entries[i].path@] == entries[i].content@,
    decreases entries.len(),
{
    if i == entries.len() - 1 {
    } else {
        assert(entries.drop_last()[i] == entries[i]);
        lemma_map_of_at(entries.drop_last(), i);
        assert(entries.last().path@ != entries[i].path@);
    }
}

/// Removing the entry at `i` removes nothing but its path: inserting
/// that path afterwards lands in the same map as inserting it into
/// the original.
proof fn lemma_map_of_remove(entries: Seq<Entry>, i: int, c: Seq<char>)
    requires
        paths_distinct(entries),
        0 <= i < entries.len(),
    ensures
        paths_distinct(entries.remove(i)),
        forall|k: int|
            0 <= k < entries.remove(i).len() ==> (#[trigger] entries.remove(i)[k]).path@
                != entries[i].path@,
        map_of(entries.remove(i)).insert(entries[i].path@, c) == map_of(entries).insert(
            entries[i].path@,
            c,
        ),
    decreases entries.len(),
{
    let p = entries[i].path@;
    entries.remove_ensures(i);
    if i == entries.len() - 1 {
        assert(entries.remove(i) =~= entries.drop_last());
        assert(map_of(entries.drop_last()).insert(p, entries[i].content@).insert(p, c)
            =~= map_of(entries.drop_last()).insert(p, c));
    } else {
        let t = entries.drop_last();
        let e = entries.last();
        assert(entries.remove(i).last() == e);
        assert(entries.remove(i).drop_last() =~= t.remove(i)) by {
            t.remove_ensures(i);
        }
        lemma_map_of_remove(t, i, c);
        assert(t[i] == entries[i]);
        assert(e.path@ != p);
        // map_of(entries.remove(i)) unfolds to map_of(t.remove(i)) with e put back
        assert(map_of(entries.remove(i)) == map_of(t.remove(i)).insert(e.path@, e.content@));
        // inserts at distinct keys commute, so the induction hypothesis applies
        assert(map_of(t.remove(i)).insert(e.path@, e.content@).insert(p, c) =~= map_of(
            t.remove(i),
        ).insert(p, c).insert(e.path@, e.content@));
        assert(map_of(t).insert(p, c).insert(e.path@, e.content@) =~= map_of(t).insert(
            e.path@,
            e.content@,
        ).insert(p, c));
    }
}

/// First index whose entry names `path`, if any entry does.
fn index_of(entries: &Vec<Entry>, path: &String) -> (r: Option<usize>)
    ensures
        match r {
            Some(i) => i < entries@.len() && entries@[i as int].path@ == path@,
            None => forall|k: int|
                0 <= k < entries@.len() ==> (#[trigger] entries@[k]).path@ != path@,
        },
{
    let n = entries.len();
    let mut i: usize = 0;
    while i < n
        invariant
            n == entries@.len(),
            i <= n,
            forall|k: int| 0 <= k < i ==> (#[trigger] entries@[k]).path@ != path@,
        decreases n - i,
    {
        if entries[i].path == *path {
            return Some(i);
        }
        i += 1;
    }
    None
}

/// In-memory model of the saved files: each path holds the full text
/// most recently saved to it.  Every call is independent; the store
/// keeps no other state.
pub struct Store {
    entries: Vec<Entry>,
}

impl View for Store {
    type V = Map<Seq<char>, Seq<char>>;

    closed spec fn view(&self) -> Map<Seq<char>, Seq<char>> {
        map_of(self.entries@)
    }
}

impl Store {
    #[verifier::type_invariant]
    spec fn wf(&self) -> bool {
        paths_distinct(self.entries@)
    }

    /// A store with no files.
    pub fn new() -> (s: Store)
        ensures
            s@ == Map::<Seq<char>, Seq<char>>::empty(),
    {
        Store { entries: Vec::new() }
    }

    /// Saves `content` at `path`: creates the file or truncates what
    /// the path held before, so that afterwards the path holds
    /// exactly `content`.
    pub fn save(&mut self, path: String, content: String)
        ensures
            final(self)@ == old(self)@.insert(path@, content@),
    {
        proof {
            use_type_invariant(&*self);
        }
        let mut entries: Vec<Entry> = Vec::new();
        std::mem::swap(&mut entries, &mut self.entries);
        let ghost s0 = entries@;
        match index_of(&entries, &path) {
            Some(i) => {
                proof {
                    lemma_map_of_remove(s0, i as int, content@);
                }
                entries.remove(i);
            },
            None => {},
        }
        let ghost s1 = entries@;
        entries.push(Entry { path, content });
        proof {
            assert(entries@.drop_last() =~= s1);
        }
        self.entries = entries;
    }

    /// Loads the content saved at `path`, or nothing when the path
    /// holds no file.  The content comes back whole and untouched;
    /// a missing file never turns into an empty success.
    pub fn load(&self, path: &String) -> (r: Option<String>)
        ensures
            (r is Some) <==> self@.contains_key(path@),
            r matches Some(content) ==> content@ == self@[path@],
    {
        proof {
            use_type_invariant(&*self);
        }
        match index_of(&self.entries, path) {
            Some(i) => {
                proof {
                    lemma_map_of_at(self.entries@, i as int);
                }
                Some(self.entries[i].content.clone())
            },
            None => {
                proof {
                    lemma_map_of_dom(self.entries@, path@);
                }
                None
            },
        }
    }
}

/// Round trip: after a save of `content` at `path`, a load at `path`
/// finds the path occupied and yields exactly `content`, whatever the
/// store held before.
pub proof fn lemma_save_then_load(
    m: Map<Seq<char>, Seq<char>>,
    path: Seq<char>,
    content: Seq<char>,
)
    ensures
        m.insert(path, content).contains_key(path),
        m.insert(path, content)[path] == content,
{
}

/// Overwrite: saving `c2` at a path that already holds `c1` leaves the
/// path with `c2` alone — the second save truncates, it does not
/// append — and touches no other path.
pub proof fn lemma_overwrite(
    m: Map<Seq<char>, Seq<char>>,
    path: Seq<char>,
    c1: Seq<char>,
    c2: Seq<char>,
)
    ensures
        m.insert(path, c1).insert(path, c2) == m.insert(path, c2),
{
    assert(m.insert(path, c1).insert(path, c2) =~= m.insert(path, c2));
}

} // verus!
