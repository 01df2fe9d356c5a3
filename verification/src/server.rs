//! The language server's side of Mermaid Quicklook: which documents are open, which have a
//! preview, and what each message of the editor asks for.

use crate::text;
use crate::uri_set;
use vstd::hash_map::StringHashMap;
use vstd::prelude::*;

verus! {

// ---------------------------------------------------------------------------------------------
// State
// ---------------------------------------------------------------------------------------------

/// Documents we've opened a preview tab for. We cannot observe the preview tab's lifecycle (an
/// image tab is not a text document, so no didOpen/didClose reaches us), so we simply keep
/// re-rendering on save while the *source* document is open. If the user closed the preview, the
/// cost is one wasted render.
pub struct State {
    documents: StringHashMap<String>,
    previewing: uri_set::UriSet,
}

/// The text of each open document, by URI, and the URIs of those that have a preview.
pub struct Session {
    pub documents: Map<Seq<char>, Seq<char>>,
    pub previewing: Set<Seq<char>>,
}

impl View for State {
    type V = Session;

    closed spec fn view(&self) -> Session {
        Session {
            documents: self.documents@.map_values(|text: String| text@),
            previewing: self.previewing@,
        }
    }
}

/// The session after the document `uri` got the text `text`.
pub open spec fn with_text(s: Session, uri: Seq<char>, text: Seq<char>) -> Session {
    Session { documents: s.documents.insert(uri, text), previewing: s.previewing }
}

/// The session after the document `uri` was closed.
pub open spec fn without(s: Session, uri: Seq<char>) -> Session {
    Session { documents: s.documents.remove(uri), previewing: s.previewing.remove(uri) }
}

/// The session after a preview of `uri` was opened.
pub open spec fn with_preview(s: Session, uri: Seq<char>) -> Session {
    Session { documents: s.documents, previewing: s.previewing.insert(uri) }
}

/// The text that a save of `uri` re-renders, if any: that of an open document with a preview.
pub open spec fn refreshed(s: Session, uri: Seq<char>) -> Option<Seq<char>> {
    if s.previewing.contains(uri) && s.documents.contains_key(uri) {
        Some(s.documents[uri])
    } else {
        None
    }
}

impl State {
    /// No documents and no previews.
    pub fn new() -> (r: State)
        ensures
            r@.documents == Map::<Seq<char>, Seq<char>>::empty(),
            r@.previewing == Set::<Seq<char>>::empty(),
    {
        let r = State { documents: StringHashMap::new(), previewing: uri_set::UriSet::new() };
        assert(r@.documents =~= Map::<Seq<char>, Seq<char>>::empty());
        r
    }

    /// Gives the document `uri` the text `text`.
    fn set_text(&mut self, uri: String, text: String)
        ensures
            final(self)@ == with_text(old(self)@, uri@, text@),
    {
        let ghost u = uri@;
        let ghost t = text@;
        self.documents.insert(uri, text);
        assert(self@.documents =~= old(self)@.documents.insert(u, t));
    }

    /// The text of the document `uri`.
    pub fn text_of(&self, uri: &str) -> (r: Option<String>)
        ensures
            match r {
                Some(text) => self@.documents.contains_key(uri@) && self@.documents[uri@] == text@,
                None => !self@.documents.contains_key(uri@),
            },
    {
        match self.documents.get(uri) {
            Some(text) => Some(text.clone()),
            None => None,
        }
    }

    /// Forgets the document `uri`.
    fn forget(&mut self, uri: &str)
        ensures
            final(self)@ == without(old(self)@, uri@),
    {
        self.documents.remove(uri);
        self.previewing.remove(uri);
        assert(self@.documents =~= old(self)@.documents.remove(uri@));
    }

    /// The URIs of the documents with a preview, each once. Their directories are swept at exit.
    pub fn previews(&self) -> (r: Vec<String>)
        ensures
            uri_set::texts(r@).to_set() == self@.previewing,
            uri_set::texts(r@).no_duplicates(),
    {
        self.previewing.to_vec()
    }
}

// ---------------------------------------------------------------------------------------------
// Notifications
// ---------------------------------------------------------------------------------------------

/// The notifications that matter.
#[derive(PartialEq, Eq, Structural)]
pub enum NotificationMethod {
    DidOpen,
    DidChange,
    DidSave,
    DidClose,
    Other,
}

/// Which notification `method` names.
pub fn notification_method(method: &str) -> (r: NotificationMethod)
    ensures
        r is DidOpen <==> method@ == "textDocument/didOpen"@,
        r is DidChange <==> method@ == "textDocument/didChange"@,
        r is DidSave <==> method@ == "textDocument/didSave"@,
        r is DidClose <==> method@ == "textDocument/didClose"@,
{
    proof {
        reveal_strlit("textDocument/didOpen");
        reveal_strlit("textDocument/didChange");
        reveal_strlit("textDocument/didSave");
        reveal_strlit("textDocument/didClose");
        assert("textDocument/didOpen"@[16] == 'O');
        assert("textDocument/didSave"@[16] == 'S');
        assert("textDocument/didChange"@.len() == 22);
        assert("textDocument/didClose"@.len() == 21);
    }
    if text::same_text(method, "textDocument/didOpen") {
        NotificationMethod::DidOpen
    } else if text::same_text(method, "textDocument/didChange") {
        NotificationMethod::DidChange
    } else if text::same_text(method, "textDocument/didSave") {
        NotificationMethod::DidSave
    } else if text::same_text(method, "textDocument/didClose") {
        NotificationMethod::DidClose
    } else {
        NotificationMethod::Other
    }
}

/// What a notification says.
pub enum Notification {
    /// The document `uri` was opened with the text `text`.
    Opened { uri: String, text: String },
    /// A document was changed: the one with the URI `document`, where one was given. `texts` has, for each change in the
    /// list of changes, the text that came with it, and is missing where there was no list.
    Changed { document: Option<String>, texts: Option<Vec<Option<String>>> },
    /// The document `uri` was saved.
    Saved { uri: String },
    /// The document `uri` was closed.
    Closed { uri: String },
    /// Something that does not matter, or that could not be read.
    Other,
}

/// What to do after a notification.
pub enum NotificationAction {
    Nothing,
    /// Re-render the preview of `uri` from `source`.
    Refresh { uri: String, source: String },
    /// Tear down the preview of `uri`.
    Close { uri: String },
}

/// Full sync: the last change carries the whole document.
pub open spec fn changed_text(texts: Option<Vec<Option<String>>>) -> Option<Seq<char>> {
    match texts {
        Some(texts) if texts@.len() > 0 => match texts@.last() {
            Some(text) => Some(text@),
            None => None,
        },
        _ => None,
    }
}

/// The URI that a change is for: the empty one where none was given.
pub open spec fn changed_uri(uri: Option<String>) -> Seq<char> {
    match uri {
        Some(uri) => uri@,
        None => Seq::empty(),
    }
}

/// The session after a notification.
pub open spec fn after(s: Session, n: Notification) -> Session {
    match n {
        Notification::Opened { uri, text } => with_text(s, uri@, text@),
        Notification::Changed { document, texts } => match changed_text(texts) {
            Some(text) => with_text(s, changed_uri(document), text),
            None => s,
        },
        Notification::Saved { uri } => s,
        Notification::Closed { uri } => without(s, uri@),
        Notification::Other => s,
    }
}

/// Takes note of a notification, and says what is to be done about it.
pub fn handle_notification(state: &mut State, notification: Notification) -> (r: NotificationAction)
    ensures
        final(state)@ == after(old(state)@, notification),
        match notification {
            Notification::Saved { uri } => match refreshed(old(state)@, uri@) {
                Some(text) => r matches NotificationAction::Refresh { uri: u, source } && u == uri
                    && source@ == text,
                None => r is Nothing,
            },
            Notification::Closed { uri } => r == NotificationAction::Close { uri },
            _ => r is Nothing,
        },
{
    match notification {
        Notification::Opened { uri, text } => {
            state.set_text(uri, text);
            NotificationAction::Nothing
        },
        Notification::Changed { document, texts } => {
            let uri = match document {
                Some(uri) => uri,
                None => String::new(),
            };
            if let Some(mut texts) = texts {
                if let Some(Some(text)) = texts.pop() {
                    state.set_text(uri, text);
                }
            }
            NotificationAction::Nothing
        },
        Notification::Saved { uri } => {
            if state.previewing.contains(uri.as_str()) {
                if let Some(source) = state.text_of(uri.as_str()) {
                    // Overwrite the same file the preview tab is showing; Zed repaints it.
                    return NotificationAction::Refresh { uri: uri, source: source };
                }
            }
            NotificationAction::Nothing
        },
        Notification::Closed { uri } => {
            state.forget(uri.as_str());
            NotificationAction::Close { uri: uri }
        },
        Notification::Other => NotificationAction::Nothing,
    }
}

/// Takes note of how opening a preview of `uri` went, and hands that on. Only a preview that was
/// rendered and opened is re-rendered on save.
pub fn record_preview(state: &mut State, uri: String, outcome: Result<(), String>) -> (r: Result<
    (),
    String,
>)
    ensures
        r == outcome,
        final(state)@ == (if outcome is Ok {
            with_preview(old(state)@, uri@)
        } else {
            old(state)@
        }),
{
    if outcome.is_ok() {
        state.previewing.insert(uri);
    }
    outcome
}

// ---------------------------------------------------------------------------------------------
// What holds of any session
// ---------------------------------------------------------------------------------------------

/// Once a preview of a document is open, a save re-renders the document's newest text: that with
/// which it was opened, or that of the last change.
pub proof fn saves_refresh_the_newest_text(s: Session, uri: Seq<char>, text: Seq<char>)
    ensures
        refreshed(with_preview(with_text(s, uri, text), uri), uri) == Some(text),
        refreshed(with_text(with_preview(s, uri), uri, text), uri) == Some(text),
{
}

/// A document without a preview is not rendered on save, whatever its text.
pub proof fn saves_without_preview_refresh_nothing(s: Session, uri: Seq<char>, text: Seq<char>)
    requires
        !s.previewing.contains(uri),
    ensures
        refreshed(s, uri) is None,
        refreshed(with_text(s, uri, text), uri) is None,
{
}

/// A closed document is forgotten: saves re-render nothing, and not even once it is open again,
/// until a preview of it is opened again.
pub proof fn closed_documents_are_forgotten(s: Session, uri: Seq<char>, text: Seq<char>)
    ensures
        refreshed(without(s, uri), uri) is None,
        !without(s, uri).documents.contains_key(uri),
        refreshed(with_text(without(s, uri), uri, text), uri) is None,
{
}

/// What happens to one document changes nothing for another.
pub proof fn documents_are_independent(
    s: Session,
    uri: Seq<char>,
    other: Seq<char>,
    text: Seq<char>,
)
    requires
        uri != other,
    ensures
        refreshed(with_text(s, uri, text), other) == refreshed(s, other),
        refreshed(with_preview(s, uri), other) == refreshed(s, other),
        refreshed(without(s, uri), other) == refreshed(s, other),
{
}

/// A change gives the document it is for exactly the text that came with its last part, whether the
/// document is open or not and has a preview or not, and changes nothing else. A change without
/// such a text changes nothing.
pub proof fn changes_set_the_newest_text(
    s: Session,
    document: Option<String>,
    texts: Option<Vec<Option<String>>>,
)
    ensures
        ({
            let t = after(s, Notification::Changed { document, texts });
            let uri = if document is Some {
                (document->0)@
            } else {
                Seq::<char>::empty()
            };
            let has_text = texts is Some && (texts->0)@.len() > 0 && (texts->0)@[(texts->0)@.len()
                - 1] is Some;
            &&& has_text ==> t.documents == s.documents.insert(
                uri,
                ((texts->0)@[(texts->0)@.len() - 1]->0)@,
            )
            &&& !has_text ==> t.documents == s.documents
            &&& t.previewing == s.previewing
        }),
{
}

/// Opening a document gives it exactly the text that it was opened with, and closing it takes its
/// text and its preview away. Both leave every other document alone. A save, and what does not
/// matter, change nothing.
pub proof fn opening_and_closing_touch_one_document(s: Session, uri: String, text: String)
    ensures
        after(s, Notification::Opened { uri, text }).documents == s.documents.insert(uri@, text@),
        after(s, Notification::Opened { uri, text }).previewing == s.previewing,
        after(s, Notification::Closed { uri }).documents == s.documents.remove(uri@),
        after(s, Notification::Closed { uri }).previewing == s.previewing.remove(uri@),
        after(s, Notification::Saved { uri }) == s,
        after(s, Notification::Other) == s,
{
}

/// A save re-renders a document if and only if it is open and has a preview, and then its text as it
/// is.
pub proof fn saves_render_the_text_as_it_is(s: Session, uri: Seq<char>)
    ensures
        s.previewing.contains(uri) && s.documents.contains_key(uri) ==> refreshed(s, uri) == Some(
            s.documents[uri],
        ),
        !(s.previewing.contains(uri) && s.documents.contains_key(uri)) ==> refreshed(s, uri) is None,
{
}

/// After a change with a text, a save of the document, once it has a preview, renders that text.
pub proof fn saves_after_a_change_render_its_text(
    s: Session,
    uri: String,
    texts: Vec<Option<String>>,
)
    requires
        texts@.len() > 0,
        texts@[texts@.len() - 1] is Some,
    ensures
        ({
            let changed = after(
                s,
                Notification::Changed { document: Some(uri), texts: Some(texts) },
            );
            let newest = (texts@[texts@.len() - 1]->0)@;
            &&& changed.documents.contains_key(uri@) && changed.documents[uri@] == newest
            &&& s.previewing.contains(uri@) ==> refreshed(changed, uri@) == Some(newest)
            &&& refreshed(with_preview(changed, uri@), uri@) == Some(newest)
        }),
{
}

/// A preview that was opened is taken note of, and nothing else changes.
pub proof fn opened_preview_is_all_that_is_noted(s: Session, uri: Seq<char>, text: Seq<char>)
    ensures
        with_preview(s, uri).previewing == s.previewing.insert(uri),
        with_preview(s, uri).documents == s.documents,
        with_text(s, uri, text).documents == s.documents.insert(uri, text),
        with_text(s, uri, text).previewing == s.previewing,
        without(s, uri).documents == s.documents.remove(uri),
        without(s, uri).previewing == s.previewing.remove(uri),
{
}

} // verus!
