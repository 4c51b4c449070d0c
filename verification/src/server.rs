//! The markdown language server core.
//!
//! The server owns the document store, the active-document pointer, and the
//! preview bridge. Every handler is a function from the current state and
//! the event's plain values to the next state and, where the preview is
//! live, the text to deliver; the surrounding process performs the protocol
//! framing, the filesystem walk, and the delivery.
//!
//! The pointer is set on every open and change, and is deliberately not
//! cleared on close: it is only a hint for directory context, never a source
//! of document content, and consumers treat it defensively.

use vstd::prelude::*;

use crate::completion::{completion_context, spec_completion_context};
use crate::document::{effective_text, ContentChange, File, Files};
use crate::preview::{initial_preview, PreviewBridge, PreviewModel};
use crate::words::Position;
use crate::ServerError;

verus! {

/// The server as the specifications see it.
pub struct ServerModel {
    /// The open documents: URI characters to document characters.
    pub files: Map<Seq<char>, Seq<char>>,
    /// The most recently opened or changed document, if any.
    pub current_file: Option<Seq<char>>,
    /// The preview bridge's state.
    pub preview: PreviewModel,
}

/// A fresh server: no documents, no active document, the preview bridge
/// unconfigured.
pub open spec fn initial_server() -> ServerModel {
    ServerModel {
        files: Map::empty(),
        current_file: None,
        preview: initial_preview(),
    }
}

/// What a push does to the bridge: a live transport appends the text to the
/// history; a transport that is not running changes nothing.
pub open spec fn push_step(p: PreviewModel, text: Seq<char>) -> PreviewModel {
    if p.running {
        PreviewModel { pushes: p.pushes.push(text), ..p }
    } else {
        p
    }
}

/// The state change an open or change event makes: the store holds the new
/// text wholesale, the document becomes active, and the text goes to a live
/// preview.
pub open spec fn sync_step(m: ServerModel, uri: Seq<char>, text: Seq<char>) -> ServerModel {
    ServerModel {
        files: m.files.insert(uri, text),
        current_file: Some(uri),
        preview: push_step(m.preview, text),
    }
}

/// The state change a close event makes: the entry leaves the store; the
/// active-document pointer and the preview stay as they were.
pub open spec fn close_step(m: ServerModel, uri: Seq<char>) -> ServerModel {
    ServerModel { files: m.files.remove(uri), ..m }
}

/// The capabilities the server advertises: full-document synchronization and
/// completion triggered by `[[`.
pub struct Capabilities {
    pub full_document_sync: bool,
    pub trigger_characters: Vec<String>,
}

/// The server's state.
pub struct MarkdownLanguageServer {
    files: Files,
    current_file: Option<String>,
    preview_server: PreviewBridge,
}

impl View for MarkdownLanguageServer {
    type V = ServerModel;

    closed spec fn view(&self) -> ServerModel {
        ServerModel {
            files: self.files@,
            current_file: match self.current_file {
                Some(u) => Some(u@),
                None => None,
            },
            preview: self.preview_server@,
        }
    }
}

impl MarkdownLanguageServer {
    /// The server's internal invariant.
    pub closed spec fn wf(&self) -> bool {
        self.files.wf()
    }

    /// A fresh server.
    pub fn new() -> (r: MarkdownLanguageServer)
        ensures
            r.wf(),
            r@ == initial_server(),
    {
        MarkdownLanguageServer {
            files: Files::new(),
            current_file: None,
            preview_server: PreviewBridge::new(),
        }
    }

    /// Delegate preview rendering to an external command.
    pub fn set_external_renderer(&mut self, program: String, args: Vec<String>)
        requires
            old(self).wf(),
        ensures
            final(self).wf(),
            final(self)@ == (ServerModel {
                preview: (PreviewModel {
                    renderer: Some(
                        (crate::preview::RendererModel {
                            program: program@,
                            args: crate::views_of(args@),
                        }),
                    ),
                    ..old(self)@.preview
                }),
                ..old(self)@
            }),
    {
        self.preview_server.set_external_renderer(program, args);
    }

    /// Handle `initialize`: pick the highlight theme, record whether the
    /// browser launch succeeded, and advertise the capabilities. A failed
    /// launch is reported once, as an internal error, and leaves the preview
    /// disabled for the session; the server itself keeps running.
    pub fn initialize(&mut self, browser_opened: bool) -> (r: Result<Capabilities, ServerError>)
        requires
            old(self).wf(),
        ensures
            final(self).wf(),
            final(self)@.files == old(self)@.files,
            final(self)@.current_file == old(self)@.current_file,
            final(self)@.preview.pushes == old(self)@.preview.pushes,
            final(self)@.preview.renderer == old(self)@.preview.renderer,
            final(self)@.preview.theme == Some("github"@),
            browser_opened ==> final(self)@.preview.running,
            !browser_opened ==> r == Err::<Capabilities, ServerError>(ServerError::InternalError)
                && final(self)@.preview.running == old(self)@.preview.running,
            match r {
                Ok(c) => {
                    &&& browser_opened
                    &&& c.full_document_sync
                    &&& c.trigger_characters@.len() == 1
                    &&& c.trigger_characters@[0]@ == "[["@
                },
                Err(e) => !browser_opened && e == ServerError::InternalError,
            },
    {
        let theme = "github".to_owned();
        proof {
            reveal_strlit("github");
        }
        self.preview_server.set_highlight_theme(theme);
        let started = self.preview_server.start(browser_opened);
        match started {
            Ok(()) => {
                let mut triggers: Vec<String> = Vec::new();
                triggers.push("[[".to_owned());
                Ok(Capabilities { full_document_sync: true, trigger_characters: triggers })
            }
            Err(_) => Err(ServerError::InternalError),
        }
    }

    /// Handle `didOpen`: record the document, make it active, and hand back
    /// the text to deliver when the preview transport is live.
    pub fn did_open(&mut self, uri: String, text: String) -> (push: Option<String>)
        requires
            old(self).wf(),
        ensures
            final(self).wf(),
            final(self)@ == sync_step(old(self)@, uri@, text@),
            match push {
                Some(t) => old(self)@.preview.running && t@ == text@,
                None => !old(self)@.preview.running,
            },
    {
        self.files.add_file(uri.clone(), File::new(text.clone()));
        self.current_file = Some(uri);
        let sent = self.preview_server.push(&text);
        match sent {
            Ok(()) => Some(text),
            Err(_) => None,
        }
    }

    /// Handle `didChange`: an unknown URI is refused with
    /// [`ServerError::NotFound`] and nothing moves; otherwise the last
    /// edit's full text replaces the document wholesale, the document
    /// becomes active, and the text to deliver comes back when the preview
    /// transport is live. Earlier edits in the batch are superseded: each
    /// carries the whole document (full-document synchronization).
    pub fn did_change(&mut self, uri: String, content_changes: Vec<ContentChange>) -> (r: Result<
        Option<String>,
        ServerError,
    >)
        requires
            old(self).wf(),
            content_changes@.len() > 0,
        ensures
            final(self).wf(),
            old(self)@.files.contains_key(uri@) ==> {
                &&& final(self)@ == sync_step(
                    old(self)@,
                    uri@,
                    effective_text(content_changes@),
                )
                &&& match r {
                    Ok(Some(t)) => old(self)@.preview.running && t@ == effective_text(
                        content_changes@,
                    ),
                    Ok(None) => !old(self)@.preview.running,
                    Err(_) => false,
                }
            },
            !old(self)@.files.contains_key(uri@) ==> r == Err::<Option<String>, ServerError>(
                ServerError::NotFound,
            ) && final(self)@ == old(self)@,
    {
        let present = self.files.get_file(&uri).is_some();
        if !present {
            return Err(ServerError::NotFound);
        }
        let mut changes = content_changes;
        let last = changes.pop().unwrap();
        let new_content = last.text;
        let file = self.files.get_file_mut(&uri);
        file.overwrite(new_content.clone());
        self.current_file = Some(uri);
        let sent = self.preview_server.push(&new_content);
        match sent {
            Ok(()) => Ok(Some(new_content)),
            Err(_) => Ok(None),
        }
    }

    /// Handle `didClose`: the entry leaves the store; closing an unknown URI
    /// is a no-op. The active-document pointer is not cleared.
    pub fn did_close(&mut self, uri: &String)
        requires
            old(self).wf(),
        ensures
            final(self).wf(),
            final(self)@ == close_step(old(self)@, uri@),
    {
        self.files.remove_file(uri);
    }

    /// The active document's content, if the pointer is set and still
    /// denotes a live entry; a stale pointer yields nothing.
    pub fn get_current_file_contents(&self) -> (r: Option<File>)
        requires
            self.wf(),
        ensures
            match r {
                Some(f) => {
                    &&& self@.current_file matches Some(u)
                    &&& self@.files.contains_key(u)
                    &&& f@ == self@.files[u]
                },
                None => match self@.current_file {
                    None => true,
                    Some(u) => !self@.files.contains_key(u),
                },
            },
    {
        match &self.current_file {
            None => None,
            Some(u) => match self.files.get_file(u) {
                None => None,
                Some(f) => Some(f.clone()),
            },
        }
    }

    /// Handle a completion request: decide it from the store, the pointer,
    /// and the cursor, per
    /// [`spec_completion_context`]. `Ok(Some(dir))` asks
    /// for a walk of `dir`, whose listing then goes to
    /// [`crate::completion::completion_list_for`].
    pub fn completion(&self, uri: &String, position: Position) -> (r: Result<
        Option<String>,
        ServerError,
    >)
        requires
            self.wf(),
        ensures
            ({
                let s = spec_completion_context(
                    self@.files,
                    self@.current_file,
                    uri@,
                    position.line as int,
                    position.character as int,
                );
                match r {
                    Err(e) => s == Err::<Option<Seq<char>>, ServerError>(e),
                    Ok(None) => s == Ok::<Option<Seq<char>>, ServerError>(None),
                    Ok(Some(p)) => s == Ok::<Option<Seq<char>>, ServerError>(Some(p@)),
                }
            }),
    {
        completion_context(&self.files, &self.current_file, uri, position)
    }

    /// Handle `shutdown`: nothing to wind down.
    pub fn shutdown(&self) -> (r: Result<(), ServerError>)
        ensures
            r == Ok::<(), ServerError>(()),
    {
        Ok(())
    }

    /// Handle `gotoDefinition`: the capability is not offered, and the
    /// refusal is a clean error response, never an abort.
    pub fn goto_definition(&self) -> (r: Result<(), ServerError>)
        ensures
            r == Err::<(), ServerError>(ServerError::Unimplemented),
    {
        Err(ServerError::Unimplemented)
    }
}

/// A run of change events for one document, applied oldest first.
pub open spec fn apply_changes(m: ServerModel, uri: Seq<char>, texts: Seq<Seq<char>>) -> ServerModel
    decreases texts.len(),
{
    if texts.len() == 0 {
        m
    } else {
        apply_changes(sync_step(m, uri, texts.first()), uri, texts.drop_first())
    }
}

/// Opening a document and then reading it yields exactly the opened content.
pub proof fn lemma_open_then_get(m: ServerModel, uri: Seq<char>, text: Seq<char>)
    ensures
        sync_step(m, uri, text).files.contains_key(uri),
        sync_step(m, uri, text).files[uri] == text,
{
}

/// Replacement is wholesale: open then change leaves the second text alone,
/// nothing of the first merged in.
pub proof fn lemma_open_change_get(m: ServerModel, uri: Seq<char>, t1: Seq<char>, t2: Seq<char>)
    ensures
        sync_step(sync_step(m, uri, t1), uri, t2).files.contains_key(uri),
        sync_step(sync_step(m, uri, t1), uri, t2).files[uri] == t2,
{
}

/// After a close, a read finds nothing; and closing twice is closing once.
pub proof fn lemma_close_then_get(m: ServerModel, uri: Seq<char>)
    ensures
        !close_step(m, uri).files.contains_key(uri),
        close_step(close_step(m, uri), uri) == close_step(m, uri),
{
    assert(close_step(m, uri).files.remove(uri) =~= close_step(m, uri).files);
}

/// Preview push ordering: a run of changes to one open document, with the
/// preview live, appends exactly the changed texts to the push history, in
/// event order — none dropped, none reordered.
pub proof fn lemma_preview_push_ordering(m: ServerModel, uri: Seq<char>, texts: Seq<Seq<char>>)
    requires
        m.files.contains_key(uri),
        m.preview.running,
    ensures
        apply_changes(m, uri, texts).preview.pushes == m.preview.pushes + texts,
        apply_changes(m, uri, texts).preview.running,
        apply_changes(m, uri, texts).files.contains_key(uri),
    decreases texts.len(),
{
    if texts.len() == 0 {
        assert(m.preview.pushes + texts =~= m.preview.pushes);
    } else {
        let m1 = sync_step(m, uri, texts.first());
        lemma_preview_push_ordering(m1, uri, texts.drop_first());
        assert(m1.preview.pushes + texts.drop_first() =~= m.preview.pushes + texts);
    }
}

} // verus!
