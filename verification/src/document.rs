//! Documents and the document store.
//!
//! A [`File`] holds one open document's text. [`Files`] is the registry of
//! open documents, keyed by URI; it is modeled as a map from the URI's
//! characters to the document's characters. Keys are unique and entries are
//! created on open, replaced in place on change, and deleted on close.

use vstd::prelude::*;

verus! {

/// One open document's text. Mutated only by full replacement: the current
/// synchronization design always carries the whole new body.
pub struct File {
    content: String,
}

impl Clone for File {
    fn clone(&self) -> (r: Self)
        ensures
            r@ == self@,
    {
        File { content: self.content.clone() }
    }
}

impl View for File {
    type V = Seq<char>;

    closed spec fn view(&self) -> Seq<char> {
        self.content@
    }
}

/// One synchronization edit. The current design supports full-document
/// synchronization only, so an edit carries the document's entire new text.
pub struct ContentChange {
    pub text: String,
}

/// The text a batch of edits leaves behind: the last edit's full text.
/// Earlier entries in the batch are superseded, since every edit carries the
/// whole document. This is a capability limitation of full-document
/// synchronization, not an optimization.
pub open spec fn effective_text(changes: Seq<ContentChange>) -> Seq<char>
    recommends
        changes.len() > 0,
{
    changes.last().text@
}

impl File {
    pub fn new(content: String) -> (r: File)
        ensures
            r@ == content@,
    {
        File { content }
    }

    /// Overwrite current content with `new_content`.
    pub fn overwrite(&mut self, new_content: String)
        ensures
            final(self)@ == new_content@,
    {
        self.content = new_content;
    }

    /// Apply a batch of synchronization edits: the document's text becomes the
    /// last edit's text, wholesale.
    pub fn update(&mut self, changes: Vec<ContentChange>)
        requires
            changes@.len() > 0,
        ensures
            final(self)@ == effective_text(changes@),
    {
        let mut changes = changes;
        let last = changes.pop().unwrap();
        self.content = last.text;
    }

    /// The document's current text.
    pub fn content(&self) -> (r: &String)
        ensures
            r@ == self@,
    {
        &self.content
    }
}

struct FileEntry {
    uri: String,
    file: File,
}

/// The map an entry sequence denotes: later entries win, though the store
/// never holds two entries with one URI.
spec fn entry_map(s: Seq<FileEntry>) -> Map<Seq<char>, Seq<char>>
    decreases s.len(),
{
    if s.len() == 0 {
        Map::empty()
    } else {
        entry_map(s.drop_last()).insert(s.last().uri@, s.last().file@)
    }
}

spec fn distinct_uris(s: Seq<FileEntry>) -> bool {
    forall|i: int, j: int| 0 <= i < j < s.len() ==> s[i].uri@ != s[j].uri@
}

proof fn lemma_entry_map_contains(s: Seq<FileEntry>, u: Seq<char>)
    ensures
        entry_map(s).contains_key(u) <==> exists|i: int| 0 <= i < s.len() && s[i].uri@ == u,
    decreases s.len(),
{
    if s.len() > 0 {
        lemma_entry_map_contains(s.drop_last(), u);
        if s.last().uri@ == u {
            assert(s[s.len() - 1].uri@ == u);
        } else if entry_map(s.drop_last()).contains_key(u) {
            let i = choose|i: int| 0 <= i < s.drop_last().len() && s.drop_last()[i].uri@ == u;
            assert(s[i].uri@ == u);
        } else if exists|i: int| 0 <= i < s.len() && s[i].uri@ == u {
            let i = choose|i: int| 0 <= i < s.len() && s[i].uri@ == u;
            assert(i < s.len() - 1 ==> s.drop_last()[i].uri@ == u);
        }
    }
}

proof fn lemma_entry_map_at(s: Seq<FileEntry>, i: int)
    requires
        distinct_uris(s),
        0 <= i < s.len(),
    ensures
        entry_map(s).contains_key(s[i].uri@),
        entry_map(s)[s[i].uri@] == s[i].file@,
    decreases s.len(),
{
    if i < s.len() - 1 {
        assert(distinct_uris(s.drop_last()));
        lemma_entry_map_at(s.drop_last(), i);
        assert(s[i].uri@ != s.last().uri@);
    }
}

proof fn lemma_entry_map_push(s: Seq<FileEntry>, e: FileEntry)
    ensures
        entry_map(s.push(e)) == entry_map(s).insert(e.uri@, e.file@),
{
    assert(s.push(e).drop_last() =~= s);
    assert(s.push(e).last() == e);
}

proof fn lemma_entry_map_update(s: Seq<FileEntry>, i: int, e: FileEntry)
    requires
        distinct_uris(s),
        0 <= i < s.len(),
        e.uri@ == s[i].uri@,
    ensures
        entry_map(s.update(i, e)) == entry_map(s).insert(e.uri@, e.file@),
        distinct_uris(s.update(i, e)),
    decreases s.len(),
{
    let t = s.update(i, e);
    assert(forall|p: int| 0 <= p < t.len() && p != i ==> t[p] == s[p]);
    if i == s.len() - 1 {
        assert(t.drop_last() =~= s.drop_last());
        assert(t.last() == e);
        assert(entry_map(t) =~= entry_map(s).insert(e.uri@, e.file@));
    } else {
        assert(t.drop_last() =~= s.drop_last().update(i, e));
        assert(t.last() == s.last());
        assert(distinct_uris(s.drop_last()));
        assert(s.drop_last()[i] == s[i]);
        lemma_entry_map_update(s.drop_last(), i, e);
        assert(s[i].uri@ != s.last().uri@);
        assert(entry_map(t) =~= entry_map(s).insert(e.uri@, e.file@));
    }
}

/// The update lemma, quantified over the new entry, so that an ensures about
/// a value mutated through a returned borrow can instantiate it.
proof fn lemma_entry_map_update_any(s: Seq<FileEntry>, i: int)
    requires
        distinct_uris(s),
        0 <= i < s.len(),
    ensures
        forall|e: FileEntry|
            e.uri@ == s[i].uri@ ==> #[trigger] entry_map(s.update(i, e)) == entry_map(s).insert(
                e.uri@,
                e.file@,
            ) && distinct_uris(s.update(i, e)),
{
    assert forall|e: FileEntry| e.uri@ == s[i].uri@ implies #[trigger] entry_map(s.update(i, e))
        == entry_map(s).insert(e.uri@, e.file@) && distinct_uris(s.update(i, e)) by {
        lemma_entry_map_update(s, i, e);
    }
}

proof fn lemma_entry_map_remove(s: Seq<FileEntry>, i: int)
    requires
        distinct_uris(s),
        0 <= i < s.len(),
    ensures
        entry_map(s.remove(i)) =~= entry_map(s).remove(s[i].uri@),
    decreases s.len(),
{
    let t = s.remove(i);
    if i == s.len() - 1 {
        assert(t =~= s.drop_last());
        lemma_entry_map_contains(s.drop_last(), s[i].uri@);
        assert(forall|j: int|
            0 <= j < s.drop_last().len() ==> s.drop_last()[j].uri@ != s[i].uri@);
    } else {
        assert(t.drop_last() =~= s.drop_last().remove(i));
        assert(t.last() == s.last());
        assert(distinct_uris(s.drop_last()));
        assert(s.drop_last()[i] == s[i]);
        lemma_entry_map_remove(s.drop_last(), i);
        assert(s[i].uri@ != s.last().uri@);
    }
}

/// The registry of open documents, keyed by URI. Viewed as a map from URI
/// characters to document characters.
pub struct Files {
    files: Vec<FileEntry>,
}

impl View for Files {
    type V = Map<Seq<char>, Seq<char>>;

    closed spec fn view(&self) -> Map<Seq<char>, Seq<char>> {
        entry_map(self.files@)
    }
}

impl Files {
    /// The store's internal invariant: no two entries share a URI.
    pub closed spec fn wf(&self) -> bool {
        distinct_uris(self.files@)
    }

    /// An empty store.
    pub fn new() -> (r: Files)
        ensures
            r.wf(),
            r@ == Map::<Seq<char>, Seq<char>>::empty(),
    {
        Files { files: Vec::new() }
    }

    fn index_of(&self, uri: &String) -> (r: Option<usize>)
        ensures
            match r {
                Some(i) => i < self.files@.len() && self.files@[i as int].uri@ == uri@,
                None => forall|i: int| 0 <= i < self.files@.len() ==> self.files@[i].uri@ != uri@,
            },
    {
        let mut i: usize = 0;
        while i < self.files.len()
            invariant
                i <= self.files@.len(),
                forall|j: int| 0 <= j < i ==> self.files@[j].uri@ != uri@,
            decreases self.files@.len() - i,
        {
            if self.files[i].uri == *uri {
                return Some(i);
            }
            i = i + 1;
        }
        None
    }

    /// Add a new file; if the URI is already present, the entry is overwritten
    /// silently (idempotent open).
    pub fn add_file(&mut self, uri: String, content: File)
        requires
            old(self).wf(),
        ensures
            final(self).wf(),
            final(self)@ == old(self)@.insert(uri@, content@),
    {
        let found = self.index_of(&uri);
        match found {
            Some(i) => {
                let e = FileEntry { uri, file: content };
                proof {
                    lemma_entry_map_update(self.files@, i as int, e);
                }
                self.files.set(i, e);
            }
            None => {
                let e = FileEntry { uri, file: content };
                let ghost s1 = self.files@;
                proof {
                    lemma_entry_map_push(s1, e);
                }
                self.files.push(e);
                proof {
                    assert forall|p: int, q: int|
                        0 <= p < q < self.files@.len() implies self.files@[p].uri@
                        != self.files@[q].uri@ by {
                        if q < s1.len() {
                            assert(self.files@[p] == s1[p] && self.files@[q] == s1[q]);
                        } else {
                            assert(self.files@[p] == s1[p] && self.files@[q] == e);
                        }
                    }
                }
            }
        }
    }

    /// Find the file with matching URI.
    pub fn get_file(&self, uri: &String) -> (r: Option<&File>)
        requires
            self.wf(),
        ensures
            match r {
                Some(f) => self@.contains_key(uri@) && f@ == self@[uri@],
                None => !self@.contains_key(uri@),
            },
    {
        let found = self.index_of(uri);
        match found {
            Some(i) => {
                proof {
                    lemma_entry_map_at(self.files@, i as int);
                }
                Some(&self.files[i].file)
            }
            None => {
                proof {
                    lemma_entry_map_contains(self.files@, uri@);
                }
                None
            }
        }
    }

    /// Borrow the file with matching URI for replacement. The URI must denote
    /// a live entry; callers check with [`Files::get_file`] first.
    pub fn get_file_mut(&mut self, uri: &String) -> (r: &mut File)
        requires
            old(self).wf(),
            old(self)@.contains_key(uri@),
        ensures
            (*r)@ == old(self)@[uri@],
            final(self).wf(),
            final(self)@ == old(self)@.insert(uri@, final(r)@),
    {
        let found = self.index_of(uri);
        match found {
            Some(i) => {
                proof {
                    lemma_entry_map_at(self.files@, i as int);
                    lemma_entry_map_update_any(self.files@, i as int);
                }
                &mut self.files[i].file
            }
            None => {
                proof {
                    lemma_entry_map_contains(self.files@, uri@);
                }
                vstd::pervasive::unreached()
            }
        }
    }

    /// Remove the entry; an absent URI is a no-op.
    pub fn remove_file(&mut self, uri: &String)
        requires
            old(self).wf(),
        ensures
            final(self).wf(),
            final(self)@ == old(self)@.remove(uri@),
    {
        let found = self.index_of(uri);
        match found {
            Some(i) => {
                proof {
                    lemma_entry_map_remove(self.files@, i as int);
                    let s = self.files@;
                    let t = s.remove(i as int);
                    assert forall|p: int, q: int| 0 <= p < q < t.len() implies t[p].uri@
                        != t[q].uri@ by {
                        assert(t[p] == if p < i { s[p] } else { s[p + 1] });
                        assert(t[q] == if q < i { s[q] } else { s[q + 1] });
                    }
                }
                self.files.remove(i);
            }
            None => {
                proof {
                    lemma_entry_map_contains(self.files@, uri@);
                    assert(entry_map(self.files@).remove(uri@) =~= entry_map(self.files@));
                }
            }
        }
    }
}

} // verus!
