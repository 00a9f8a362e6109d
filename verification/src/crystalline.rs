//! The markdown notes memory: the cached text of every `.md` file under a
//! notes directory, kept current as files change, and searched by plain
//! case-insensitive containment. Walking the directory, reading the files
//! and watching for changes are the caller's part.
use vstd::prelude::*;
use crate::documents::{extension, path_extension};
use crate::memory::{to_lowercase, unicode_lowercase};
use crate::settings::{assign, key_is, key_pos, lookup};
use crate::text::{chars_of, contains_seq, contains_sub, owned, str_eq};

verus! {

/// A note that a search found: its path (the id), its text and its tags.
#[derive(Debug)]
pub struct CrystallineHit {
    pub id: String,
    pub content: String,
    pub tags: Vec<String>,
}

/// A path whose extension is `md`.
pub open spec fn markdown_path(path: Seq<char>) -> bool {
    extension(path) == Some("md"@)
}

pub open spec fn other_path(path: Seq<char>) -> spec_fn((Seq<char>, Seq<char>)) -> bool {
    |e: (Seq<char>, Seq<char>)| e.0 != path
}

/// The cache without the note at `path`.
pub open spec fn without_path(cache: Seq<(Seq<char>, Seq<char>)>, path: Seq<char>) -> Seq<(Seq<char>, Seq<char>)> {
    cache.filter(other_path(path))
}

/// A note matches a query when its lowercased text holds the lowercased query.
pub open spec fn note_matches(e: (Seq<char>, Seq<char>), query: Seq<char>) -> bool {
    contains_seq(unicode_lowercase(e.1), unicode_lowercase(query))
}

/// The notes that a search finds: the matching ones, in cache order, at most `limit`.
pub open spec fn search_hits(cache: Seq<(Seq<char>, Seq<char>)>, query: Seq<char>, limit: nat) -> Seq<(Seq<char>, Seq<char>)> {
    let m = cache.filter(|e: (Seq<char>, Seq<char>)| note_matches(e, query));
    if m.len() <= limit {
        m
    } else {
        m.take(limit as int)
    }
}

/// The cache as values: each path with its note.
pub open spec fn notes_view(s: Seq<(String, String)>) -> Seq<(Seq<char>, Seq<char>)> {
    s.map_values(|e: (String, String)| (e.0@, e.1@))
}

fn find_note(s: &Vec<(String, String)>, k: &str) -> (r: Option<usize>)
    ensures
        match key_pos(notes_view(s@), k@) {
            Some(i) => r matches Some(x) && x as int == i && 0 <= i < s@.len(),
            None => r is None,
        },
{
    let ghost sv = notes_view(s@);
    let ghost p = key_is::<Seq<char>>(k@);
    let mut i: usize = 0;
    while i < s.len()
        invariant
            i <= s@.len(),
            sv == notes_view(s@),
            p == key_is::<Seq<char>>(k@),
            forall|j: int| 0 <= j < i ==> !p(#[trigger] sv[j]),
        decreases s@.len() - i,
    {
        if str_eq(s[i].0.as_str(), k) {
            proof {
                crate::third_party::lemma_first_where_skip(sv, p, i as int);
                assert(sv.skip(i as int)[0] == sv[i as int]);
            }
            return Some(i);
        }
        i = i + 1;
    }
    proof {
        crate::third_party::lemma_first_where_skip(sv, p, i as int);
        assert(sv.skip(i as int).len() == 0);
    }
    None
}

pub open spec fn hits_view(h: Seq<CrystallineHit>) -> Seq<(Seq<char>, Seq<char>)> {
    h.map_values(|x: CrystallineHit| (x.id@, x.content@))
}

/// The notes under `root_path`, by path.
#[derive(Debug)]
pub struct CrystallineMemory {
    root_path: String,
    cache: Vec<(String, String)>,
}

pub fn is_markdown(path: &str) -> (r: bool)
    ensures
        r == markdown_path(path@),
{
    match path_extension(path) {
        Some(e) => str_eq(e.as_str(), "md"),
        None => false,
    }
}

impl CrystallineMemory {
    pub closed spec fn cache_spec(&self) -> Seq<(Seq<char>, Seq<char>)> {
        notes_view(self.cache@)
    }

    pub closed spec fn root_spec(&self) -> Seq<char> {
        self.root_path@
    }

    /// An empty cache for the notes under `root_path`.
    pub fn new(root_path: String) -> (r: Self)
        ensures
            r.cache_spec().len() == 0,
            r.root_spec() == root_path@,
    {
        let r = CrystallineMemory { root_path, cache: Vec::new() };
        assert(r.cache_spec() =~= Seq::<(Seq<char>, Seq<char>)>::empty());
        r
    }

    /// The directory whose notes are cached.
    pub fn root_path(&self) -> (r: &str)
        ensures
            r@ == self.root_spec(),
    {
        self.root_path.as_str()
    }

    /// A file was created or changed (or found by a scan): a markdown file's
    /// text is cached under its path, in place of what was there; any other
    /// file is ignored. Says whether it was cached.
    pub fn file_changed(&mut self, path: String, content: String) -> (cached: bool)
        ensures
            cached == markdown_path(path@),
            cached ==> final(self).cache_spec() == assign(old(self).cache_spec(), path@, content@),
            !cached ==> final(self).cache_spec() == old(self).cache_spec(),
            final(self).root_spec() == old(self).root_spec(),
    {
        if !is_markdown(path.as_str()) {
            return false;
        }
        let ghost before = self.cache_spec();
        let ghost pv = path@;
        let ghost cv = content@;
        match find_note(&self.cache, path.as_str()) {
            Some(i) => {
                self.cache.set(i, (path, content));
            },
            None => {
                self.cache.push((path, content));
            },
        }
        assert(self.cache_spec() =~= assign(before, pv, cv));
        true
    }

    /// A file was removed: its note leaves the cache.
    pub fn file_removed(&mut self, path: &str)
        ensures
            final(self).cache_spec() == without_path(old(self).cache_spec(), path@),
            final(self).root_spec() == old(self).root_spec(),
    {
        let ghost all = self.cache_spec();
        let ghost f = other_path(path@);
        let mut kept: Vec<(String, String)> = Vec::new();
        let mut i: usize = 0;
        assert(all.take(0).filter(f) =~= Seq::<(Seq<char>, Seq<char>)>::empty()) by {
            reveal(Seq::filter);
        }
        assert(notes_view(kept@) =~= Seq::<(Seq<char>, Seq<char>)>::empty());
        while i < self.cache.len()
            invariant
                i <= self.cache@.len(),
                all == self.cache_spec(),
                f == other_path(path@),
                notes_view(kept@) == all.take(i as int).filter(f),
            decreases self.cache@.len() - i,
        {
            let ghost pre = all.take(i + 1);
            assert(pre.drop_last() =~= all.take(i as int));
            assert(pre.last() == all[i as int]);
            proof {
                reveal(Seq::filter);
            }
            if !str_eq(self.cache[i].0.as_str(), path) {
                let e = (self.cache[i].0.clone(), self.cache[i].1.clone());
                assert(notes_view(kept@.push(e)) =~= notes_view(kept@).push((e.0@, e.1@)));
                kept.push(e);
            }
            i = i + 1;
        }
        assert(all.take(i as int) =~= all);
        self.cache = kept;
    }

    /// The notes whose text holds `query`, ignoring case, in cache order,
    /// at most `limit` of them, each tagged `crystalline` and `markdown`.
    pub fn search(&self, query: &str, limit: usize) -> (r: Vec<CrystallineHit>)
        ensures
            hits_view(r@) == search_hits(self.cache_spec(), query@, limit as nat),
            forall|i: int| 0 <= i < r@.len() ==> crate::text::str_views((#[trigger] r@[i]).tags@) == seq!["crystalline"@, "markdown"@],
    {
        let q = chars_of(to_lowercase(query).as_str());
        let ghost all = self.cache_spec();
        let ghost f = |e: (Seq<char>, Seq<char>)| note_matches(e, query@);
        let mut out: Vec<CrystallineHit> = Vec::new();
        let mut i: usize = 0;
        assert(all.take(0).filter(f) =~= Seq::<(Seq<char>, Seq<char>)>::empty()) by {
            reveal(Seq::filter);
        }
        assert(hits_view(out@) =~= Seq::<(Seq<char>, Seq<char>)>::empty());
        while i < self.cache.len()
            invariant
                i <= self.cache@.len(),
                all == self.cache_spec(),
                q@ == unicode_lowercase(query@),
                f == |e: (Seq<char>, Seq<char>)| note_matches(e, query@),
                hits_view(out@) == all.take(i as int).filter(f),
                forall|k: int| 0 <= k < out@.len() ==> crate::text::str_views((#[trigger] out@[k]).tags@) == seq!["crystalline"@, "markdown"@],
            decreases self.cache@.len() - i,
        {
            let ghost pre = all.take(i + 1);
            assert(pre.drop_last() =~= all.take(i as int));
            assert(pre.last() == all[i as int]);
            proof {
                reveal(Seq::filter);
            }
            let text = chars_of(to_lowercase(self.cache[i].1.as_str()).as_str());
            if contains_sub(&text, &q) {
                let mut tags: Vec<String> = Vec::new();
                tags.push(owned("crystalline"));
                tags.push(owned("markdown"));
                assert(crate::text::str_views(tags@) =~= seq!["crystalline"@, "markdown"@]);
                let hit = CrystallineHit { id: self.cache[i].0.clone(), content: self.cache[i].1.clone(), tags };
                assert(hits_view(out@.push(hit)) =~= hits_view(out@).push((hit.id@, hit.content@)));
                out.push(hit);
            }
            i = i + 1;
        }
        assert(all.take(i as int) =~= all);
        out.truncate(limit);
        assert(hits_view(out@) =~= search_hits(all, query@, limit as nat));
        out
    }
}

/// What a change writes, a lookup reads back: the note of a changed
/// markdown file is its new text, and every other path keeps its note.
pub proof fn law_changed_note_reads_back(
    cache: Seq<(Seq<char>, Seq<char>)>,
    path: Seq<char>,
    content: Seq<char>,
    other: Seq<char>,
)
    ensures
        lookup(assign(cache, path, content), path) == Some(content),
        other != path ==> lookup(assign(cache, path, content), other) == lookup(cache, other),
{
    crate::settings::law_assign_then_lookup(cache, path, content, other);
}

/// A removed note is gone, and every other note stays.
pub proof fn law_removed_note_is_gone(cache: Seq<(Seq<char>, Seq<char>)>, path: Seq<char>)
    ensures
        lookup(without_path(cache, path), path) is None,
        forall|e: (Seq<char>, Seq<char>)| cache.contains(e) && e.0 != path ==> #[trigger] without_path(cache, path).contains(e),
{
    let f = other_path(path);
    let w = cache.filter(f);
    crate::third_party::lemma_first_where_props(w, key_is::<Seq<char>>(path));
    match key_pos(w, path) {
        Some(k) => {
            cache.lemma_filter_pred(f, k);
            assert(w[k].0 != path);
            assert(key_is::<Seq<char>>(path)(w[k]));
        },
        None => {},
    }
    assert forall|e: (Seq<char>, Seq<char>)| cache.contains(e) && e.0 != path implies #[trigger] w.contains(e) by {
        let k = choose|k: int| 0 <= k < cache.len() && cache[k] == e;
        cache.lemma_filter_contains(f, k);
    }
}

} // verus!
