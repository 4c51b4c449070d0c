//! Wiki-link completion.
//!
//! A completion request triggers when the word under the cursor opens a
//! wiki link: it starts with `[[` and is not yet closed by `]`. The
//! candidates are the markdown files under the active document's parent
//! directory, labeled by path relative to that directory. The filesystem
//! walk itself happens outside the library; it hands in the walked paths and
//! receives the finished list.

use vstd::prelude::*;
use vstd::string::StrSliceExecFns;

use crate::document::Files;
use crate::order::{lex_sorted, sort_labels};
use crate::paths::{is_markdown_path, parent_of, rel_label};
use crate::words::{get_current_word, spec_lines, word_at, Position};
use crate::ServerError;

verus! {

/// The completion trigger: the word under the cursor starts with `[[` and
/// does not end with `]`, so the link is still being typed.
pub open spec fn is_completion_trigger(w: Seq<char>) -> bool {
    w.len() >= 2 && w[0] == '[' && w[1] == '[' && w[w.len() - 1] != ']'
}

/// Whether the word triggers completion, per [`is_completion_trigger`].
pub fn word_triggers_completion(word: &str) -> (r: bool)
    ensures
        r == is_completion_trigger(word@),
{
    let n = word.unicode_len();
    if n < 2 {
        return false;
    }
    let open_one = word.get_char(0);
    let open_two = word.get_char(1);
    let last = word.get_char(n - 1);
    open_one == '[' && open_two == '[' && last != ']'
}

/// The kind every candidate has: a file.
#[derive(Clone, Copy, PartialEq, Eq, Structural, Debug)]
pub enum CompletionKind {
    File,
}

/// One completion candidate: a label naming a file relative to the scanned
/// directory.
pub struct CompletionItem {
    pub label: String,
    pub kind: CompletionKind,
}

/// A completion response: the candidates, and whether the client must ask
/// again for a fuller list (it never must: the list is exhaustive for the
/// scanned tree at response time).
pub struct CompletionList {
    pub is_incomplete: bool,
    pub items: Vec<CompletionItem>,
}

/// The labels of a candidate sequence, in order.
pub open spec fn item_labels(items: Seq<CompletionItem>) -> Seq<Seq<char>> {
    items.map_values(|it: CompletionItem| it.label@)
}

/// The labels the walked paths contribute, in walk order: one per markdown
/// file that lies under the root, labeled relative to the root.
pub open spec fn candidate_labels(root: Seq<char>, paths: Seq<Seq<char>>) -> Seq<Seq<char>>
    decreases paths.len(),
{
    if paths.len() == 0 {
        Seq::empty()
    } else {
        let rest = candidate_labels(root, paths.drop_last());
        let p = paths.last();
        if is_markdown_path(p) {
            match rel_label(root, p) {
                Some(l) => rest.push(l),
                None => rest,
            }
        } else {
            rest
        }
    }
}

/// The candidates are complete: every markdown file under the root
/// contributes its relative label to the list.
pub proof fn lemma_candidates_complete(root: Seq<char>, paths: Seq<Seq<char>>, i: int, l: Seq<char>)
    requires
        0 <= i < paths.len(),
        is_markdown_path(paths[i]),
        rel_label(root, paths[i]) == Some(l),
    ensures
        candidate_labels(root, paths).contains(l),
    decreases paths.len(),
{
    let rest = candidate_labels(root, paths.drop_last());
    if i == paths.len() - 1 {
        let built = candidate_labels(root, paths);
        assert(built == rest.push(l));
        assert(built[built.len() - 1] == l);
    } else {
        assert(paths.drop_last()[i] == paths[i]);
        lemma_candidates_complete(root, paths.drop_last(), i, l);
        let k = choose|k: int| 0 <= k < rest.len() && rest[k] == l;
        assert(candidate_labels(root, paths)[k] == l);
    }
}

/// The candidates are sound: every label in the list is the relative label
/// of some markdown file among the walked paths.
pub proof fn lemma_candidates_sound(root: Seq<char>, paths: Seq<Seq<char>>, l: Seq<char>)
    requires
        candidate_labels(root, paths).contains(l),
    ensures
        exists|i: int|
            0 <= i < paths.len() && is_markdown_path(paths[i]) && rel_label(root, paths[i])
                == Some(l),
    decreases paths.len(),
{
    let built = candidate_labels(root, paths);
    let rest = candidate_labels(root, paths.drop_last());
    let k = choose|k: int| 0 <= k < built.len() && built[k] == l;
    if k < rest.len() {
        assert(rest[k] == l);
        lemma_candidates_sound(root, paths.drop_last(), l);
        let i = choose|i: int|
            0 <= i < paths.drop_last().len() && is_markdown_path(paths.drop_last()[i]) && rel_label(
                root,
                paths.drop_last()[i],
            ) == Some(l);
        assert(paths[i] == paths.drop_last()[i]);
    } else {
        assert(is_markdown_path(paths.last()) && rel_label(root, paths.last()) == Some(l));
        assert(paths[paths.len() - 1] == paths.last());
    }
}

fn collect_candidates(root: &String, paths: &Vec<String>) -> (r: Vec<String>)
    ensures
        crate::views_of(r@) == candidate_labels(root@, crate::views_of(paths@)),
{
    let mut r: Vec<String> = Vec::new();
    let mut i: usize = 0;
    proof {
        assert(crate::views_of(paths@).take(0) =~= Seq::<Seq<char>>::empty());
        assert(crate::views_of(r@) =~= Seq::<Seq<char>>::empty());
    }
    while i < paths.len()
        invariant
            i <= paths@.len(),
            crate::views_of(r@) == candidate_labels(root@, crate::views_of(paths@).take(i as int)),
        decreases paths@.len() - i,
    {
        let ghost pv = crate::views_of(paths@);
        let ghost rv0 = crate::views_of(r@);
        proof {
            assert(pv.take(i + 1).drop_last() =~= pv.take(i as int));
            assert(pv.take(i + 1).last() == pv[i as int]);
        }
        let path = &paths[i];
        if crate::paths::is_markdown_file(path.as_str()) {
            let label = crate::paths::relative_label(root.as_str(), path.as_str());
            match label {
                Some(l) => {
                    r.push(l);
                    proof {
                        assert(crate::views_of(r@) =~= rv0.push(
                            candidate_labels(root@, pv.take(i + 1)).last(),
                        ));
                    }
                }
                None => {}
            }
        }
        i = i + 1;
    }
    proof {
        assert(crate::views_of(paths@).take(paths@.len() as int) =~= crate::views_of(paths@));
    }
    r
}

/// Build the completion list for a walked directory: one candidate per
/// markdown file under `root`, labeled relative to `root`, sorted in
/// lexicographic label order, every candidate of kind file, and the list
/// marked complete.
pub fn completion_list_for(root: &String, paths: &Vec<String>) -> (r: CompletionList)
    ensures
        r.is_incomplete == false,
        lex_sorted(item_labels(r.items@)),
        item_labels(r.items@).to_multiset() == candidate_labels(
            root@,
            crate::views_of(paths@),
        ).to_multiset(),
        forall|i: int| 0 <= i < r.items@.len() ==> r.items@[i].kind == CompletionKind::File,
{
    let labels = collect_candidates(root, paths);
    let sorted = sort_labels(labels);
    let mut items: Vec<CompletionItem> = Vec::new();
    let mut i: usize = 0;
    let ghost sv = crate::views_of(sorted@);
    proof {
        assert(item_labels(items@) =~= Seq::<Seq<char>>::empty());
        assert(sv.take(0) =~= Seq::<Seq<char>>::empty());
    }
    while i < sorted.len()
        invariant
            i <= sorted@.len(),
            sv == crate::views_of(sorted@),
            item_labels(items@) == sv.take(i as int),
            forall|j: int| 0 <= j < items@.len() ==> items@[j].kind == CompletionKind::File,
        decreases sorted@.len() - i,
    {
        let ghost iv0 = item_labels(items@);
        let label = sorted[i].clone();
        items.push(CompletionItem { label, kind: CompletionKind::File });
        proof {
            assert(item_labels(items@) =~= iv0.push(sv[i as int]));
            assert(sv.take(i + 1) =~= sv.take(i as int).push(sv[i as int]));
        }
        i = i + 1;
    }
    proof {
        assert(sv.take(sorted@.len() as int) =~= sv);
    }
    CompletionList { is_incomplete: false, items }
}

/// What a completion request decides, over the store's and pointer's views:
/// an unknown document is refused, a cursor outside the document is refused,
/// an untriggered word completes to nothing, and a triggered word needs an
/// active document whose path has a parent — the directory to scan.
pub open spec fn spec_completion_context(
    files: Map<Seq<char>, Seq<char>>,
    current: Option<Seq<char>>,
    uri: Seq<char>,
    line: int,
    character: int,
) -> Result<Option<Seq<char>>, ServerError> {
    if !files.contains_key(uri) {
        Err(ServerError::NotFound)
    } else {
        let doc = files[uri];
        if line >= spec_lines(doc).len() || character > spec_lines(doc)[line].len() {
            Err(ServerError::InvalidPosition)
        } else {
            let w = word_at(spec_lines(doc)[line], character);
            if !is_completion_trigger(w) {
                Ok(None)
            } else {
                match current {
                    None => Err(ServerError::InternalError),
                    Some(cu) => match parent_of(cu) {
                        None => Err(ServerError::InternalError),
                        Some(p) => Ok(Some(p)),
                    },
                }
            }
        }
    }
}

/// Decide a completion request: `Ok(Some(dir))` asks for a walk of `dir`,
/// `Ok(None)` answers "no completions", and an error is reported to the
/// client. The unknown-document error is [`ServerError::NotFound`], which
/// read paths surface as an invalid-params response.
pub fn completion_context(
    files: &Files,
    current_file: &Option<String>,
    uri: &String,
    position: Position,
) -> (r: Result<Option<String>, ServerError>)
    requires
        files.wf(),
    ensures
        ({
            let s = spec_completion_context(
                files@,
                match current_file {
                    Some(u) => Some(u@),
                    None => None,
                },
                uri@,
                position.line as int,
                position.character as int,
            );
            match r {
                Err(e) => s == Err::<Option<Seq<char>>, ServerError>(e),
                Ok(None) => s == Ok::<Option<Seq<char>>, ServerError>(None),
                Ok(Some(p)) => s == Ok::<Option<Seq<char>>, ServerError>(Some(p@)),
            }
        }),
{
    let file = match files.get_file(uri) {
        Some(f) => f,
        None => {
            return Err(ServerError::NotFound);
        }
    };
    let word = match get_current_word(file.content().as_str(), position) {
        Some(w) => w,
        None => {
            return Err(ServerError::InvalidPosition);
        }
    };
    if !word_triggers_completion(word.as_str()) {
        return Ok(None);
    }
    let current = match current_file {
        Some(u) => u,
        None => {
            return Err(ServerError::InternalError);
        }
    };
    match crate::paths::parent_dir(current.as_str()) {
        Some(p) => Ok(Some(p)),
        None => Err(ServerError::InternalError),
    }
}

} // verus!
