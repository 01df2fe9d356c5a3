//! The editor's requests: the actions offered on a diagram, and the commands behind them.

use crate::export;
use crate::path;
use crate::render;
use crate::server;
use crate::text;
use crate::uri;
use vstd::prelude::*;

verus! {

pub const CMD_PREVIEW: &'static str = "mermaid.preview";

pub const CMD_EXPORT_PNG: &'static str = "mermaid.exportPng";

pub const CMD_EXPORT_SVG: &'static str = "mermaid.exportSvg";

/// The commands that the server takes.
pub open spec fn commands() -> Seq<Seq<char>> {
    seq![CMD_PREVIEW@, CMD_EXPORT_PNG@, CMD_EXPORT_SVG@]
}

/// The commands that the server takes, as it advertises them.
pub fn advertised_commands() -> (r: Vec<String>)
    ensures
        r@.len() == commands().len(),
        forall|i: int| 0 <= i < r@.len() ==> (#[trigger] r@[i])@ == commands()[i],
{
    let mut r: Vec<String> = Vec::new();
    r.push(CMD_PREVIEW.to_owned());
    r.push(CMD_EXPORT_PNG.to_owned());
    r.push(CMD_EXPORT_SVG.to_owned());
    r
}

// ---------------------------------------------------------------------------------------------
// Code actions
// ---------------------------------------------------------------------------------------------

/// An action offered on a document: running `command` on the document `uri`.
pub struct CodeAction {
    pub title: String,
    pub command: String,
    pub uri: String,
}

/// The title and the command of each action offered on the document `uri`.
pub open spec fn offered(uri: Seq<char>) -> Seq<(Seq<char>, Seq<char>)> {
    if uri::mermaid(uri) {
        seq![
            ("Open Mermaid Preview"@, CMD_PREVIEW@),
            ("Export Mermaid Diagram as PNG"@, CMD_EXPORT_PNG@),
            ("Export Mermaid Diagram as SVG"@, CMD_EXPORT_SVG@),
        ]
    } else {
        Seq::empty()
    }
}

/// Whether `actions` are those offered on the document `uri`.
pub open spec fn are_offered(actions: Seq<CodeAction>, uri: Seq<char>) -> bool {
    &&& actions.len() == offered(uri).len()
    &&& forall|i: int|
        0 <= i < actions.len() ==> {
            &&& (#[trigger] actions[i]).title@ == offered(uri)[i].0
            &&& actions[i].command@ == offered(uri)[i].1
            &&& actions[i].uri@ == uri
        }
}

fn action(title: &str, command: &str, uri: &str) -> (r: CodeAction)
    ensures
        r.title@ == title@,
        r.command@ == command@,
        r.uri@ == uri@,
{
    CodeAction { title: title.to_owned(), command: command.to_owned(), uri: uri.to_owned() }
}

/// The actions offered on the document `uri`.
pub fn code_actions(uri: &str) -> (r: Vec<CodeAction>)
    ensures
        are_offered(r@, uri@),
{
    let mut r: Vec<CodeAction> = Vec::new();
    if !uri::is_mermaid_document(uri) {
        return r;
    }
    r.push(action("Open Mermaid Preview", CMD_PREVIEW, uri));
    r.push(action("Export Mermaid Diagram as PNG", CMD_EXPORT_PNG, uri));
    r.push(action("Export Mermaid Diagram as SVG", CMD_EXPORT_SVG, uri));
    r
}

/// Every action offered runs a command that the server takes, and every command is offered on
/// every diagram.
pub proof fn offered_actions_are_the_commands(uri: Seq<char>)
    requires
        uri::mermaid(uri),
    ensures
        offered(uri).map_values(|a: (Seq<char>, Seq<char>)| a.1) == commands(),
{
    assert(offered(uri).map_values(|a: (Seq<char>, Seq<char>)| a.1) =~= commands());
}

// ---------------------------------------------------------------------------------------------
// Commands
// ---------------------------------------------------------------------------------------------

/// What a command asks for.
pub enum CommandAction {
    /// Render `source` to the preview of `uri`, open that, and take note of it.
    Preview { uri: String, source: String },
    /// Render `source` to `target`, off the main loop.
    Export { source: String, target: Vec<u8> },
}

/// Why a command is refused.
pub enum CommandError {
    MissingUri,
    NotOpen(String),
    Unknown(String),
    Export(export::ExportError),
}

impl CommandError {
    /// What the user is told.
    pub open spec fn text(self) -> Seq<char> {
        match self {
            CommandError::MissingUri => "command is missing its uri argument"@,
            CommandError::NotOpen(uri) => "document is not open: "@ + uri@,
            CommandError::Unknown(command) => "unknown command: "@ + command@,
            CommandError::Export(error) => error.text(),
        }
    }

    /// What the user is told.
    pub fn message(&self) -> (r: String)
        ensures
            r@ == self.text(),
    {
        match self {
            CommandError::MissingUri => "command is missing its uri argument".to_owned(),
            CommandError::NotOpen(uri) => "document is not open: ".to_owned().concat(uri.as_str()),
            CommandError::Unknown(command) => "unknown command: ".to_owned().concat(
                command.as_str(),
            ),
            CommandError::Export(error) => error.message(),
        }
    }
}

/// The URI that a command is for: that of its first argument. `arguments` has the URI of each
/// argument that has one.
pub open spec fn uri_argument(arguments: Seq<Option<String>>) -> Option<Seq<char>> {
    if arguments.len() == 0 {
        None
    } else {
        match arguments[0] {
            Some(uri) => Some(uri@),
            None => None,
        }
    }
}

/// The format that an export command exports to.
pub open spec fn export_format(command: Seq<char>) -> Option<Seq<char>> {
    if command == CMD_EXPORT_PNG@ {
        Some("png"@)
    } else if command == CMD_EXPORT_SVG@ {
        Some("svg"@)
    } else {
        None
    }
}

/// What `command` asks for, on the document that its first argument names.
pub fn execute_command(
    state: &server::State,
    command: &str,
    arguments: &Vec<Option<String>>,
) -> (r: Result<CommandAction, CommandError>)
    ensures
        match uri_argument(arguments@) {
            None => r matches Err(CommandError::MissingUri),
            Some(uri) => if !state@.documents.contains_key(uri) {
                r matches Err(CommandError::NotOpen(u)) && u@ == uri
            } else if command@ == CMD_PREVIEW@ {
                r matches Ok(CommandAction::Preview { uri: u, source }) && u@ == uri && source@
                    == state@.documents[uri]
            } else if export_format(command@) is Some {
                match r {
                    Ok(CommandAction::Export { source, target }) => source@ == state@.documents[uri]
                        && uri::url_parses(uri) && uri::url_file_path(uri) is Some
                        && !export::onto_source(
                        uri::url_file_path(uri)->0,
                        export_format(command@)->0,
                    ) && target@ == export::export_file(
                        uri::url_file_path(uri)->0,
                        export_format(command@)->0,
                    ) && (path::file_name(uri::url_file_path(uri)->0) is Some ==> target@
                        != uri::url_file_path(uri)->0),
                    Err(
                        CommandError::Export(
                            export::ExportError::Source(uri::SourcePathError::Unparsable),
                        ),
                    ) => !uri::url_parses(uri),
                    Err(
                        CommandError::Export(
                            export::ExportError::Source(uri::SourcePathError::NotLocal(u)),
                        ),
                    ) => u@ == uri && uri::url_parses(uri) && uri::url_file_path(uri) is None,
                    Err(CommandError::Export(export::ExportError::OntoSource(u))) => u@ == uri
                        && uri::url_parses(uri) && uri::url_file_path(uri) is Some
                        && export::onto_source(
                        uri::url_file_path(uri)->0,
                        export_format(command@)->0,
                    ),
                    _ => false,
                }
            } else {
                r matches Err(CommandError::Unknown(c)) && c@ == command@
            },
        },
{
    if arguments.len() == 0 {
        return Err(CommandError::MissingUri);
    }
    let uri: String = match &arguments[0] {
        Some(uri) => uri.clone(),
        None => {
            return Err(CommandError::MissingUri);
        },
    };
    let source: String = match state.text_of(uri.as_str()) {
        Some(source) => source,
        None => {
            return Err(CommandError::NotOpen(uri));
        },
    };
    if text::same_text(command, CMD_PREVIEW) {
        return Ok(CommandAction::Preview { uri: uri, source: source });
    }
    proof {
        export::png_and_svg_are_formats();
    }
    let target = if text::same_text(command, CMD_EXPORT_PNG) {
        export::export(uri.as_str(), "png")
    } else if text::same_text(command, CMD_EXPORT_SVG) {
        export::export(uri.as_str(), "svg")
    } else {
        return Err(CommandError::Unknown(command.to_owned()));
    };
    match target {
        Ok(target) => Ok(CommandAction::Export { source: source, target: target }),
        Err(error) => Err(CommandError::Export(error)),
    }
}

/// No command that the server advertises is unknown to it, and every other one is.
pub proof fn advertised_commands_are_known(command: Seq<char>)
    ensures
        commands().contains(command) <==> command == CMD_PREVIEW@ || export_format(command) is Some,
{
    assert(commands()[0] == CMD_PREVIEW@);
    assert(commands()[1] == CMD_EXPORT_PNG@);
    assert(commands()[2] == CMD_EXPORT_SVG@);
}

// ---------------------------------------------------------------------------------------------
// Messages to the user
// ---------------------------------------------------------------------------------------------

/// How a message is shown.
#[derive(PartialEq, Eq, Structural)]
pub enum Severity {
    Error,
    Info,
}

/// A message to the user.
pub struct Toast {
    pub severity: Severity,
    pub message: String,
}

/// A message that something went wrong.
pub fn show_error(message: String) -> (r: Toast)
    ensures
        r.severity is Error,
        r.message == message,
{
    Toast { severity: Severity::Error, message: message }
}

/// A message that something went well.
pub fn show_info(message: String) -> (r: Toast)
    ensures
        r.severity is Info,
        r.message == message,
{
    Toast { severity: Severity::Info, message: message }
}

/// What the user is told of an export to `target`.
pub fn export_toast(target: &[u8], result: &Result<(), render::RenderError>) -> (r: Toast)
    ensures
        match *result {
            Ok(()) => r.severity is Info && r.message@ == "Exported "@ + path::shown(target@),
            Err(error) => r.severity is Error && r.message@ == "Mermaid export failed: "@
                + error.text(),
        },
{
    match result {
        Ok(()) => show_info("Exported ".to_owned().concat(path::show(target).as_str())),
        Err(error) => show_error(
            "Mermaid export failed: ".to_owned().concat(error.message().as_str()),
        ),
    }
}

/// What the user is told of a preview that could not be re-rendered. A syntax error mid-edit is
/// normal and expected: it is reported, and the last good render stays in the tab.
pub fn refresh_toast(error: &render::RenderError) -> (r: Toast)
    ensures
        r.severity is Error,
        r.message@ == "Mermaid: "@ + error.text(),
{
    show_error("Mermaid: ".to_owned().concat(error.message().as_str()))
}

// ---------------------------------------------------------------------------------------------
// Requests
// ---------------------------------------------------------------------------------------------

/// The requests that matter.
#[derive(PartialEq, Eq, Structural)]
pub enum RequestMethod {
    CodeAction,
    ExecuteCommand,
    Other,
}

/// Which request `method` names.
pub fn request_method(method: &str) -> (r: RequestMethod)
    ensures
        r is CodeAction <==> method@ == "textDocument/codeAction"@,
        r is ExecuteCommand <==> method@ == "workspace/executeCommand"@,
{
    proof {
        reveal_strlit("textDocument/codeAction");
        reveal_strlit("workspace/executeCommand");
        assert("textDocument/codeAction"@[0] == 't');
        assert("workspace/executeCommand"@[0] == 'w');
    }
    if text::same_text(method, "textDocument/codeAction") {
        RequestMethod::CodeAction
    } else if text::same_text(method, "workspace/executeCommand") {
        RequestMethod::ExecuteCommand
    } else {
        RequestMethod::Other
    }
}

/// What a request asks for.
pub enum Request {
    /// The actions offered on the document `uri`.
    CodeAction { uri: String },
    /// To run `command`. `arguments` has the URI of each argument that has one.
    ExecuteCommand { command: String, arguments: Vec<Option<String>> },
    /// Something that does not matter, or that could not be read.
    Other,
}

/// What a request is answered with.
pub enum Reply {
    Null,
    Actions(Vec<CodeAction>),
}

/// What to do about a request: first `action`, or show `toast`, then answer `reply`.
pub struct RequestOutcome {
    pub reply: Reply,
    pub action: Option<CommandAction>,
    pub toast: Option<Toast>,
}

/// What to do about a request. No request is answered with an error: a command that is refused is
/// answered like one that is not, and the user is told why.
pub fn handle_request(state: &server::State, request: &Request) -> (r: RequestOutcome)
    ensures
        match *request {
            Request::CodeAction { uri } => (r.reply matches Reply::Actions(actions) && are_offered(
                actions@,
                uri@,
            )) && r.action is None && r.toast is None,
            Request::ExecuteCommand { command, arguments } => {
                &&& r.reply is Null
                &&& refused(state@, command@, arguments@) is Some ==> r.action is None && (
                r.toast matches Some(toast) && toast.severity is Error && toast.message@ == refused(
                    state@,
                    command@,
                    arguments@,
                )->0)
                &&& refused(state@, command@, arguments@) is None ==> r.toast is None && (
                r.action matches Some(action) && granted(state@, command@, arguments@, action))
            },
            Request::Other => r.reply is Null && r.action is None && r.toast is None,
        },
{
    match request {
        Request::CodeAction { uri } => RequestOutcome {
            reply: Reply::Actions(code_actions(uri.as_str())),
            action: None,
            toast: None,
        },
        Request::ExecuteCommand { command, arguments } => {
            match execute_command(state, command.as_str(), arguments) {
                Ok(action) => RequestOutcome {
                    reply: Reply::Null,
                    action: Some(action),
                    toast: None,
                },
                Err(error) => RequestOutcome {
                    reply: Reply::Null,
                    action: None,
                    toast: Some(show_error(error.message())),
                },
            }
        },
        Request::Other => RequestOutcome { reply: Reply::Null, action: None, toast: None },
    }
}

/// What the user is told of a command that is refused.
pub open spec fn refused(
    s: server::Session,
    command: Seq<char>,
    arguments: Seq<Option<String>>,
) -> Option<Seq<char>> {
    match uri_argument(arguments) {
        None => Some("command is missing its uri argument"@),
        Some(uri) => if !s.documents.contains_key(uri) {
            Some("document is not open: "@ + uri)
        } else if command == CMD_PREVIEW@ {
            None
        } else if export_format(command) is None {
            Some("unknown command: "@ + command)
        } else if !uri::url_parses(uri) {
            Some("parsing document uri"@)
        } else if uri::url_file_path(uri) is None {
            Some("document is not a local file: "@ + uri)
        } else if export::onto_source(uri::url_file_path(uri)->0, export_format(command)->0) {
            Some("export would replace its source: "@ + uri)
        } else {
            None
        },
    }
}

/// Whether `action` is what a command that is not refused asks for.
pub open spec fn granted(
    s: server::Session,
    command: Seq<char>,
    arguments: Seq<Option<String>>,
    action: CommandAction,
) -> bool {
    let uri = uri_argument(arguments)->0;
    match action {
        CommandAction::Preview { uri: u, source } => command == CMD_PREVIEW@ && u@ == uri && source@
            == s.documents[uri],
        CommandAction::Export { source, target } => command != CMD_PREVIEW@ && source@
            == s.documents[uri] && target@ == export::export_file(
            uri::url_file_path(uri)->0,
            export_format(command)->0,
        ) && (path::file_name(uri::url_file_path(uri)->0) is Some ==> target@ != uri::url_file_path(
            uri,
        )->0),
    }
}

/// No stage of an export that a command is granted touches the file of the document that the
/// command is for, unless that is the input in a scratch directory. A path that ends in `..` is no
/// file.
pub proof fn commands_leave_source_files_alone(
    s: server::Session,
    command: Seq<char>,
    arguments: Seq<Option<String>>,
    action: CommandAction,
    stages: Seq<render::Stage>,
    events: Seq<render::RenderEvent>,
    i: int,
)
    requires
        refused(s, command, arguments) is None,
        granted(s, command, arguments, action),
        path::file_name(uri::url_file_path(uri_argument(arguments)->0)->0) is Some || path::parent(
            uri::url_file_path(uri_argument(arguments)->0)->0,
        ) is None,
        action matches CommandAction::Export { source, target } && render::course(
            source@,
            target@,
            stages,
            events,
        ),
        0 <= i < stages.len(),
        !render::scratch_input(events, uri::url_file_path(uri_argument(arguments)->0)->0),
    ensures
        action matches CommandAction::Export { source, target } && !render::touched(
            target@,
            stages[i],
        ).contains(uri::url_file_path(uri_argument(arguments)->0)->0),
{
    let file = uri::url_file_path(uri_argument(arguments)->0)->0;
    let format = export_format(command)->0;
    export::png_and_svg_are_formats();
    if let CommandAction::Export { source, target } = action {
        export::export_leaves_source_file_alone(source@, file, format, stages, events, i);
    }
}

// ---------------------------------------------------------------------------------------------
// Opening an image
// ---------------------------------------------------------------------------------------------

/// The programs that can open an image as a tab, in the order in which they are tried.
pub open spec fn editors() -> Seq<Seq<char>> {
    seq!["zed"@, "zeditor"@, "xdg-open"@]
}

/// The program to open `image` with once `failed` programs could not be started, or what the user
/// is told where none is left.
///
/// Zed does not implement the LSP `window/showDocument` request for regular language servers
/// (only Copilot registers a handler, and it is a no-op stub), so we go through the `zed` CLI
/// instead. Re-opening an already-open path just focuses that tab.
pub fn open_in_editor(image: &[u8], failed: usize) -> (r: Result<String, String>)
    ensures
        match r {
            Ok(program) => failed < editors().len() && program@ == editors()[failed as int],
            Err(message) => failed >= editors().len() && message@ == "could not open "@
                + path::shown(image@) + ": no `zed` CLI on PATH"@,
        },
{
    if failed == 0 {
        Ok("zed".to_owned())
    } else if failed == 1 {
        Ok("zeditor".to_owned())
    } else if failed == 2 {
        Ok("xdg-open".to_owned())
    } else {
        Err(
            "could not open ".to_owned().concat(path::show(image).as_str()).concat(
                ": no `zed` CLI on PATH",
            ),
        )
    }
}

// ---------------------------------------------------------------------------------------------
// What is offered, refused and granted
// ---------------------------------------------------------------------------------------------

/// The three actions are offered on every diagram, in this order, and on nothing else.
pub proof fn actions_are_offered_on_diagrams(uri: Seq<char>)
    ensures
        ".mmd"@.is_suffix_of(uri) || ".mermaid"@.is_suffix_of(uri) ==> offered(uri) == seq![
            ("Open Mermaid Preview"@, "mermaid.preview"@),
            ("Export Mermaid Diagram as PNG"@, "mermaid.exportPng"@),
            ("Export Mermaid Diagram as SVG"@, "mermaid.exportSvg"@),
        ],
        !(".mmd"@.is_suffix_of(uri) || ".mermaid"@.is_suffix_of(uri)) ==> offered(uri).len() == 0,
        commands() == seq!["mermaid.preview"@, "mermaid.exportPng"@, "mermaid.exportSvg"@],
{
}

/// Each action that is offered runs its command on the very document it is offered on.
pub proof fn offered_actions_are_for_their_document(
    actions: Seq<CodeAction>,
    uri: Seq<char>,
    i: int,
)
    requires
        are_offered(actions, uri),
        0 <= i < actions.len(),
    ensures
        actions.len() == 3,
        actions[i].uri@ == uri,
        i == 0 ==> actions[i].title@ == "Open Mermaid Preview"@ && actions[i].command@
            == "mermaid.preview"@,
        i == 1 ==> actions[i].title@ == "Export Mermaid Diagram as PNG"@ && actions[i].command@
            == "mermaid.exportPng"@,
        i == 2 ==> actions[i].title@ == "Export Mermaid Diagram as SVG"@ && actions[i].command@
            == "mermaid.exportSvg"@,
{
}

/// The actions are those of the document: all three where it is a diagram, and else none.
pub proof fn diagrams_get_all_actions(actions: Seq<CodeAction>, uri: Seq<char>)
    requires
        are_offered(actions, uri),
    ensures
        ".mmd"@.is_suffix_of(uri) || ".mermaid"@.is_suffix_of(uri) ==> actions.len() == 3,
        !(".mmd"@.is_suffix_of(uri) || ".mermaid"@.is_suffix_of(uri)) ==> actions.len() == 0,
{
}

/// A command is for the URI of its first argument.
pub proof fn commands_are_for_their_first_argument(arguments: Seq<Option<String>>)
    ensures
        arguments.len() > 0 && arguments[0] is Some ==> uri_argument(arguments) == Some(
            (arguments[0]->0)@,
        ),
        !(arguments.len() > 0 && arguments[0] is Some) ==> uri_argument(arguments) is None,
{
}

proof fn lemma_commands_differ()
    ensures
        "mermaid.preview"@ != "mermaid.exportPng"@,
        "mermaid.preview"@ != "mermaid.exportSvg"@,
        "mermaid.exportPng"@ != "mermaid.exportSvg"@,
        "png"@ != "svg"@,
{
    reveal_strlit("mermaid.preview");
    reveal_strlit("mermaid.exportPng");
    reveal_strlit("mermaid.exportSvg");
    reveal_strlit("png");
    reveal_strlit("svg");
    assert("mermaid.preview"@.len() == 15);
    assert("mermaid.exportPng"@.len() == 17);
    assert("mermaid.exportPng"@[14] == 'P');
    assert("mermaid.exportSvg"@[14] == 'S');
    assert("png"@[0] == 'p');
    assert("svg"@[0] == 's');
}

/// Which commands are refused, and with which words: one without a URI, one on a document that is
/// not open, one that the server does not know, and an export of a document that is no local file
/// or that has the export's extension. Every other one is granted.
pub proof fn commands_are_refused_for_a_reason(
    s: server::Session,
    command: Seq<char>,
    arguments: Seq<Option<String>>,
)
    ensures
        ({
            let has_uri = arguments.len() > 0 && arguments[0] is Some;
            let uri = (arguments[0]->0)@;
            let known = command == "mermaid.preview"@ || command == "mermaid.exportPng"@ || command
                == "mermaid.exportSvg"@;
            let exports = command == "mermaid.exportPng"@ || command == "mermaid.exportSvg"@;
            let ext = if command == "mermaid.exportPng"@ {
                vstd::utf8::encode_utf8("png"@)
            } else {
                vstd::utf8::encode_utf8("svg"@)
            };
            let open = s.documents.contains_key(uri);
            let file = uri::url_file_path(uri);
            let reason = refused(s, command, arguments);
            &&& !has_uri ==> reason == Some("command is missing its uri argument"@)
            &&& has_uri && !open ==> reason == Some("document is not open: "@ + uri)
            &&& has_uri && open && !known ==> reason == Some("unknown command: "@ + command)
            &&& has_uri && open && command == "mermaid.preview"@ ==> reason is None
            &&& has_uri && open && exports && !uri::url_parses(uri) ==> reason == Some(
                "parsing document uri"@,
            )
            &&& has_uri && open && exports && uri::url_parses(uri) && file is None ==> reason
                == Some("document is not a local file: "@ + uri)
            &&& has_uri && open && exports && uri::url_parses(uri) && file is Some
                && path::extension(file->0) == Some(ext) ==> reason == Some(
                "export would replace its source: "@ + uri,
            )
            &&& has_uri && open && exports && uri::url_parses(uri) && file is Some
                && path::extension(file->0) != Some(ext) ==> reason is None
        }),
{
    lemma_commands_differ();
    let file = uri::url_file_path((arguments[0]->0)@)->0;
    export::png_and_svg_are_formats();
    export::sources_with_the_extension_are_replaced(file, "png"@);
    export::sources_with_the_extension_are_replaced(file, "svg"@);
}

/// What a command that is granted does: a preview is of the document and its text as it is, and an
/// export renders that text to the document's own path, with the extension that the command names.
pub proof fn granted_commands_work_on_their_document(
    s: server::Session,
    command: Seq<char>,
    arguments: Seq<Option<String>>,
    action: CommandAction,
)
    requires
        refused(s, command, arguments) is None,
        granted(s, command, arguments, action),
    ensures
        arguments.len() > 0 && arguments[0] is Some,
        s.documents.contains_key((arguments[0]->0)@),
        command == "mermaid.preview"@ ==> (action matches CommandAction::Preview { uri, source }
            && uri@ == (arguments[0]->0)@ && source@ == s.documents[(arguments[0]->0)@]),
        command == "mermaid.exportPng"@ ==> (action matches CommandAction::Export {
            source,
            target,
        } && source@ == s.documents[(arguments[0]->0)@] && target@ == path::with_extension(
            uri::url_file_path((arguments[0]->0)@)->0,
            vstd::utf8::encode_utf8("png"@),
        )),
        command == "mermaid.exportSvg"@ ==> (action matches CommandAction::Export {
            source,
            target,
        } && source@ == s.documents[(arguments[0]->0)@] && target@ == path::with_extension(
            uri::url_file_path((arguments[0]->0)@)->0,
            vstd::utf8::encode_utf8("svg"@),
        )),
        command == "mermaid.preview"@ || command == "mermaid.exportPng"@ || command
            == "mermaid.exportSvg"@,
{
    lemma_commands_differ();
    commands_are_refused_for_a_reason(s, command, arguments);
}

/// A command that follows a change of its document renders the text of that change.
pub proof fn commands_render_the_newest_text(
    s: server::Session,
    uri: String,
    texts: Vec<Option<String>>,
    command: Seq<char>,
    arguments: Seq<Option<String>>,
    action: CommandAction,
)
    requires
        texts@.len() > 0,
        texts@[texts@.len() - 1] is Some,
        arguments.len() > 0,
        arguments[0] == Some(uri),
        refused(
            server::after(
                s,
                server::Notification::Changed { document: Some(uri), texts: Some(texts) },
            ),
            command,
            arguments,
        ) is None,
        granted(
            server::after(
                s,
                server::Notification::Changed { document: Some(uri), texts: Some(texts) },
            ),
            command,
            arguments,
            action,
        ),
    ensures
        action matches CommandAction::Preview { source, .. } ==> source@ == (texts@[texts@.len()
            - 1]->0)@,
        action matches CommandAction::Export { source, .. } ==> source@ == (texts@[texts@.len()
            - 1]->0)@,
{
    let changed = server::after(
        s,
        server::Notification::Changed { document: Some(uri), texts: Some(texts) },
    );
    server::saves_after_a_change_render_its_text(s, uri, texts);
    granted_commands_work_on_their_document(changed, command, arguments, action);
}

/// The export commands name their formats.
pub proof fn export_commands_name_their_formats(command: Seq<char>)
    ensures
        export_format("mermaid.exportPng"@) == Some("png"@),
        export_format("mermaid.exportSvg"@) == Some("svg"@),
        command != "mermaid.exportPng"@ && command != "mermaid.exportSvg"@ ==> export_format(
            command,
        ) is None,
{
    lemma_commands_differ();
}

/// The editors are tried in this order.
pub proof fn zed_is_tried_first()
    ensures
        editors() == seq!["zed"@, "zeditor"@, "xdg-open"@],
{
}

/// What the user is told of a command that is refused names the whole URI or command.
pub proof fn errors_are_told_whole(error: CommandError)
    ensures
        error is MissingUri ==> error.text() == "command is missing its uri argument"@,
        error is NotOpen ==> error.text() == "document is not open: "@ + error->NotOpen_0@,
        error is Unknown ==> error.text() == "unknown command: "@ + error->Unknown_0@,
        error is Export ==> error.text() == error->Export_0.text(),
{
}

} // verus!
