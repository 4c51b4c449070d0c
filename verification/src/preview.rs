//! The preview bridge.
//!
//! One long-lived preview transport serves the whole server process. The
//! bridge records its configuration (display theme, optional external
//! renderer command, whether the transport is live) and the ordered history
//! of texts it accepted for delivery. Binding the transport, launching a
//! browser, and delivering the text are performed outside the library; the
//! bridge decides what they are given and in what order.

use vstd::prelude::*;

verus! {

/// Errors of the preview transport's lifecycle.
#[derive(Clone, Copy, PartialEq, Eq, Structural, Debug)]
pub enum PreviewError {
    /// The transport could not bind or the browser could not be launched.
    RenderStart,
    /// A push was asked of a transport that is not running.
    Push,
}

/// An external renderer: a program and its fixed arguments. When one is
/// configured, rendering is delegated to that process.
pub struct RendererCommand {
    pub program: String,
    pub args: Vec<String>,
}

/// The renderer as the specifications see it.
pub struct RendererModel {
    pub program: Seq<char>,
    pub args: Seq<Seq<char>>,
}

/// The bridge as the specifications see it.
pub struct PreviewModel {
    /// Whether the transport is live: only then are pushes accepted.
    pub running: bool,
    /// The display theme, once configured.
    pub theme: Option<Seq<char>>,
    /// The external renderer command, once configured.
    pub renderer: Option<RendererModel>,
    /// Every text accepted for delivery, oldest first.
    pub pushes: Seq<Seq<char>>,
}

/// The bridge over the preview transport.
pub struct PreviewBridge {
    running: bool,
    theme: Option<String>,
    renderer: Option<RendererCommand>,
    pushes: Ghost<Seq<Seq<char>>>,
}

impl View for PreviewBridge {
    type V = PreviewModel;

    closed spec fn view(&self) -> PreviewModel {
        PreviewModel {
            running: self.running,
            theme: match self.theme {
                Some(t) => Some(t@),
                None => None,
            },
            renderer: match self.renderer {
                Some(c) => Some(RendererModel { program: c.program@, args: crate::views_of(c.args@) }),
                None => None,
            },
            pushes: self.pushes@,
        }
    }
}

/// The bridge before any configuration: transport down, nothing configured,
/// nothing pushed.
pub open spec fn initial_preview() -> PreviewModel {
    PreviewModel { running: false, theme: None, renderer: None, pushes: Seq::empty() }
}

impl PreviewBridge {
    /// A fresh bridge.
    pub fn new() -> (r: PreviewBridge)
        ensures
            r@ == initial_preview(),
    {
        PreviewBridge { running: false, theme: None, renderer: None, pushes: Ghost(Seq::empty()) }
    }

    /// Set the display theme; calling again overwrites.
    pub fn set_highlight_theme(&mut self, theme: String)
        ensures
            final(self)@ == (PreviewModel { theme: Some(theme@), ..old(self)@ }),
    {
        self.theme = Some(theme);
    }

    /// Delegate rendering to an external command; calling again overwrites.
    pub fn set_external_renderer(&mut self, program: String, args: Vec<String>)
        ensures
            final(self)@ == (PreviewModel {
                renderer: Some(
                    (RendererModel { program: program@, args: crate::views_of(args@) }),
                ),
                ..old(self)@
            }),
    {
        self.renderer = Some(RendererCommand { program, args });
    }

    /// Record the transport's start. `ready` says whether binding and the
    /// browser launch succeeded outside; on failure the bridge stays as it
    /// was, so the preview is simply disabled for the session.
    pub fn start(&mut self, ready: bool) -> (r: Result<(), PreviewError>)
        ensures
            ready ==> r == Ok::<(), PreviewError>(()) && final(self)@ == (PreviewModel {
                running: true,
                ..old(self)@
            }),
            !ready ==> r == Err::<(), PreviewError>(PreviewError::RenderStart) && *final(self)
                == *old(self),
    {
        if ready {
            self.running = true;
            Ok(())
        } else {
            Err(PreviewError::RenderStart)
        }
    }

    /// Accept a text for delivery. A live transport appends it to the push
    /// history, in arrival order; a transport that is not running refuses and
    /// the history is untouched.
    pub fn push(&mut self, text: &String) -> (r: Result<(), PreviewError>)
        ensures
            old(self)@.running ==> r == Ok::<(), PreviewError>(()) && final(self)@
                == (PreviewModel { pushes: old(self)@.pushes.push(text@), ..old(self)@ }),
            !old(self)@.running ==> r == Err::<(), PreviewError>(PreviewError::Push) && *final(self)
                == *old(self),
    {
        if self.running {
            proof {
                self.pushes@ = self.pushes@.push(text@);
            }
            Ok(())
        } else {
            Err(PreviewError::Push)
        }
    }
}

} // verus!
