use mermaid_quicklook::command::{
    advertised_commands, code_actions, execute_command, export_toast, handle_request,
    open_in_editor, refresh_toast, request_method, CommandAction, CommandError, Reply, Request,
    RequestMethod, Severity,
};
use mermaid_quicklook::export::{export, export_target, ExportError};
use mermaid_quicklook::opening::{open_preview, PreviewEvent, PreviewJob, PreviewStage};
use mermaid_quicklook::preview::{preview_path, PreviewError};
use mermaid_quicklook::refresh::{
    after_refresh, refresh, refresh_place, RefreshEvent, RefreshJob, RefreshStage,
};
use mermaid_quicklook::render::RenderError;
use mermaid_quicklook::server::{
    handle_notification, notification_method, record_preview, Notification, NotificationAction,
    NotificationMethod, State,
};
use mermaid_quicklook::slots::{
    close_preview, finish_render, refresh_preview, AfterRender, Renders,
};

fn s(text: &str) -> String {
    text.to_string()
}

fn open(state: &mut State, uri: &str, text: &str) {
    let n = Notification::Opened { uri: s(uri), text: s(text) };
    assert!(matches!(handle_notification(state, n), NotificationAction::Nothing));
}

fn save(state: &mut State, uri: &str) -> Option<(String, String)> {
    match handle_notification(state, Notification::Saved { uri: s(uri) }) {
        NotificationAction::Refresh { uri, source } => Some((uri, source)),
        NotificationAction::Nothing => None,
        NotificationAction::Close { .. } => panic!(),
    }
}

fn command(state: &State, name: &str, uri: &str) -> Result<CommandAction, CommandError> {
    execute_command(state, name, &vec![Some(s(uri))])
}

fn refusal(r: Result<CommandAction, CommandError>) -> String {
    match r {
        Ok(_) => panic!("granted"),
        Err(e) => e.message(),
    }
}

#[test]
fn notifications_are_told_by_their_method() {
    assert!(notification_method("textDocument/didOpen") == NotificationMethod::DidOpen);
    assert!(notification_method("textDocument/didChange") == NotificationMethod::DidChange);
    assert!(notification_method("textDocument/didSave") == NotificationMethod::DidSave);
    assert!(notification_method("textDocument/didClose") == NotificationMethod::DidClose);
    assert!(notification_method("initialized") == NotificationMethod::Other);
    assert!(request_method("textDocument/codeAction") == RequestMethod::CodeAction);
    assert!(request_method("workspace/executeCommand") == RequestMethod::ExecuteCommand);
    assert!(request_method("textDocument/hover") == RequestMethod::Other);
}

#[test]
fn saves_refresh_an_open_preview_from_the_newest_text() {
    let mut state = State::new();
    open(&mut state, "u", "one");
    assert_eq!(save(&mut state, "u"), None);
    assert!(record_preview(&mut state, s("u"), Ok(())).is_ok());
    assert_eq!(save(&mut state, "u"), Some((s("u"), s("one"))));
    let change = Notification::Changed {
        document: Some(s("u")),
        texts: Some(vec![Some(s("two")), Some(s("three"))]),
    };
    handle_notification(&mut state, change);
    assert_eq!(save(&mut state, "u"), Some((s("u"), s("three"))));
    assert_eq!(save(&mut state, "v"), None);
}

#[test]
fn changes_without_text_are_ignored() {
    let mut state = State::new();
    open(&mut state, "u", "one");
    for texts in [None, Some(vec![]), Some(vec![Some(s("x")), None])] {
        handle_notification(&mut state, Notification::Changed { document: Some(s("u")), texts });
        assert_eq!(state.text_of("u"), Some(s("one")));
    }
    let texts = Some(vec![Some(s("x"))]);
    handle_notification(&mut state, Notification::Changed { document: None, texts });
    assert_eq!(state.text_of(""), Some(s("x")));
    handle_notification(&mut state, Notification::Other);
    assert_eq!(state.text_of("u"), Some(s("one")));
}

#[test]
fn closed_document_is_forgotten() {
    let mut state = State::new();
    open(&mut state, "u", "one");
    open(&mut state, "v", "two");
    record_preview(&mut state, s("u"), Ok(())).unwrap();
    record_preview(&mut state, s("v"), Ok(())).unwrap();
    record_preview(&mut state, s("v"), Ok(())).unwrap();
    assert_eq!(state.previews(), vec![s("u"), s("v")]);
    match handle_notification(&mut state, Notification::Closed { uri: s("u") }) {
        NotificationAction::Close { uri } => assert_eq!(uri, "u"),
        _ => panic!(),
    }
    assert_eq!(state.text_of("u"), None);
    assert_eq!(state.previews(), vec![s("v")]);
    open(&mut state, "u", "again");
    assert_eq!(save(&mut state, "u"), None);
    assert_eq!(save(&mut state, "v"), Some((s("v"), s("two"))));
}

#[test]
fn failed_preview_is_not_recorded() {
    let mut state = State::new();
    open(&mut state, "u", "one");
    assert_eq!(record_preview(&mut state, s("u"), Err(s("no"))), Err(s("no")));
    assert_eq!(save(&mut state, "u"), None);
}

#[test]
fn three_actions_are_offered_on_a_diagram() {
    let actions = code_actions("file:///a.mmd");
    let offered: Vec<(&str, &str)> =
        actions.iter().map(|a| (a.title.as_str(), a.command.as_str())).collect();
    assert_eq!(
        offered,
        vec![
            ("Open Mermaid Preview", "mermaid.preview"),
            ("Export Mermaid Diagram as PNG", "mermaid.exportPng"),
            ("Export Mermaid Diagram as SVG", "mermaid.exportSvg"),
        ]
    );
    assert!(actions.iter().all(|a| a.uri == "file:///a.mmd"));
    assert!(code_actions("file:///a.md").is_empty());
    let commands: Vec<String> = actions.iter().map(|a| a.command.clone()).collect();
    assert_eq!(commands, advertised_commands());
}

#[test]
fn commands_are_granted_on_open_documents() {
    let mut state = State::new();
    let uri = "file:///a/flow.mmd";
    open(&mut state, uri, "text");
    match command(&state, "mermaid.preview", uri) {
        Ok(CommandAction::Preview { uri: u, source }) => {
            assert_eq!(u, uri);
            assert_eq!(source, "text");
        }
        _ => panic!(),
    }
    for (name, expected) in [("mermaid.exportPng", "/a/flow.png"), ("mermaid.exportSvg", "/a/flow.svg")] {
        match command(&state, name, uri) {
            Ok(CommandAction::Export { source, target }) => {
                assert_eq!(source, "text");
                assert_eq!(target, expected.as_bytes());
            }
            _ => panic!(),
        }
    }
}

#[test]
fn commands_are_refused_with_a_reason() {
    let mut state = State::new();
    open(&mut state, "untitled:1", "text");
    open(&mut state, "no url", "text");
    let missing = "command is missing its uri argument";
    assert_eq!(refusal(execute_command(&state, "mermaid.preview", &vec![])), missing);
    assert_eq!(refusal(execute_command(&state, "mermaid.preview", &vec![None, Some(s("u"))])), missing);
    assert_eq!(refusal(command(&state, "mermaid.preview", "u")), "document is not open: u");
    assert_eq!(refusal(command(&state, "x", "untitled:1")), "unknown command: x");
    assert_eq!(
        refusal(command(&state, "mermaid.exportPng", "untitled:1")),
        "document is not a local file: untitled:1"
    );
    assert_eq!(refusal(command(&state, "mermaid.exportSvg", "no url")), "parsing document uri");
    assert!(command(&state, "mermaid.preview", "no url").is_ok());
}

#[test]
fn exports_go_beside_the_source_and_never_onto_it() {
    assert_eq!(export("file:///a/flow.mmd", "svg").ok(), Some(b"/a/flow.svg".to_vec()));
    assert!(matches!(export("untitled:1", "svg"), Err(ExportError::Source(_))));
    assert_eq!(export_target(b"/a/flow", "png"), Some(b"/a/flow.png".to_vec()));
    assert_eq!(export_target(b"/a/.mmd", "png"), Some(b"/a/.mmd.png".to_vec()));
    assert_eq!(export_target(b"/a/flow.svg", "png"), Some(b"/a/flow.png".to_vec()));
    assert_eq!(export_target(b"/a/flow.png", "png"), None);
    assert_eq!(export_target(b"/a/flow.svg/", "svg"), None);
    // Only a file can be replaced: a path without a file name stays as it is.
    assert_eq!(export_target(b"/", "png"), Some(b"/".to_vec()));
    assert_eq!(export_target(b"/a/..", "svg"), Some(b"/a/..".to_vec()));
    assert_eq!(export("file:///", "png").ok(), Some(b"/".to_vec()));
    // An empty format takes the extension away.
    assert_eq!(export_target(b"/d/a.mmd", ""), Some(b"/d/a".to_vec()));
    assert_eq!(export_target(b"/d/a.", ""), Some(b"/d/a".to_vec()));
    assert_eq!(export_target(b"/d/a", ""), None);
    assert_eq!(export_target(b"/d/a.tar.gz", "tar.gz"), Some(b"/d/a.tar.tar.gz".to_vec()));
}

#[test]
fn export_that_would_replace_its_source_is_refused() {
    for (uri, format) in [("file:///d/a.svg", "svg"), ("file:///d/a.png", "png"), ("file:///d/a", "")] {
        match export(uri, format) {
            Err(ExportError::OntoSource(u)) => assert_eq!(u, uri),
            _ => panic!(),
        }
    }
    let mut state = State::new();
    open(&mut state, "file:///d/a.svg", "graph TD");
    let message = "export would replace its source: file:///d/a.svg";
    assert_eq!(refusal(command(&state, "mermaid.exportSvg", "file:///d/a.svg")), message);
    match command(&state, "mermaid.exportPng", "file:///d/a.svg") {
        Ok(CommandAction::Export { source, target }) => {
            assert_eq!(source, "graph TD");
            assert_eq!(target, b"/d/a.png");
        }
        _ => panic!(),
    }
    let r = handle_request(
        &state,
        &Request::ExecuteCommand {
            command: s("mermaid.exportSvg"),
            arguments: vec![Some(s("file:///d/a.svg"))],
        },
    );
    assert!(matches!(r.reply, Reply::Null) && r.action.is_none());
    let toast = r.toast.unwrap();
    assert!(toast.severity == Severity::Error);
    assert_eq!(toast.message, message);
}

const FLOW: &str = "file:///a/flow.mmd";

fn begun() -> (State, PreviewJob) {
    let mut state = State::new();
    open(&mut state, FLOW, "graph TD");
    (state, open_preview(s(FLOW), s("graph TD")))
}

fn located() -> PreviewEvent {
    PreviewEvent::Located { base: Ok(b"/base".to_vec()) }
}

fn rendered() -> PreviewEvent {
    PreviewEvent::Rendered { outcome: Ok(()) }
}

fn opened() -> PreviewEvent {
    PreviewEvent::Opened { result: Ok(()) }
}

fn failure(job: &PreviewJob) -> &str {
    match &job.stage {
        PreviewStage::Done { result: Err(message) } => message,
        _ => panic!(),
    }
}

#[test]
fn preview_is_placed_then_rendered_then_opened() {
    let (mut state, job) = begun();
    let place = preview_path(b"/base", FLOW).ok().unwrap();
    assert!(matches!(&job.stage, PreviewStage::Locate));
    let job = job.advance(&mut state, located());
    assert!(matches!(&job.stage, PreviewStage::Render { target } if *target == place));
    assert_eq!(job.source, "graph TD");
    let job = job.advance(&mut state, rendered());
    assert!(matches!(&job.stage, PreviewStage::Open { target } if *target == place));
    assert_eq!(save(&mut state, FLOW), None);
    let job = job.advance(&mut state, opened());
    assert!(matches!(&job.stage, PreviewStage::Done { result: Ok(()) }));
    assert_eq!(state.previews(), vec![FLOW]);
    assert_eq!(save(&mut state, FLOW), Some((s(FLOW), s("graph TD"))));
}

#[test]
fn preview_that_fails_at_any_stage_is_not_recorded() {
    let (mut state, job) = begun();
    let job = job.advance(&mut state, PreviewEvent::Located { base: Err(s("not private")) });
    assert_eq!(failure(&job), "not private");
    let job = job.advance(&mut state, located());
    assert_eq!(failure(&job), "not private");

    let (mut state, job) = begun();
    let job = job.advance(&mut state, located());
    let job = job.advance(
        &mut state,
        PreviewEvent::Rendered { outcome: Err(RenderError::EmptyDiagram) },
    );
    assert_eq!(failure(&job), "diagram is empty");
    let job = job.advance(&mut state, opened());
    assert_eq!(failure(&job), "diagram is empty");
    assert_eq!(save(&mut state, FLOW), None);

    let (mut state, job) = begun();
    let job = job.advance(&mut state, located()).advance(&mut state, rendered());
    let job = job.advance(&mut state, PreviewEvent::Opened { result: Err(s("no editor")) });
    assert_eq!(failure(&job), "no editor");
    assert_eq!(save(&mut state, FLOW), None);

    assert_eq!(failure(&open_preview(s("untitled:1"), s("x"))), "document is not a local file: untitled:1");
    assert_eq!(failure(&open_preview(s("no url"), s("x"))), "parsing document uri");
}

#[test]
fn preview_takes_no_event_out_of_order() {
    let (mut state, job) = begun();
    let job = job.advance(&mut state, opened()).advance(&mut state, rendered());
    assert!(matches!(&job.stage, PreviewStage::Locate));
    let job = job.advance(&mut state, located()).advance(&mut state, opened());
    assert!(matches!(&job.stage, PreviewStage::Render { .. }));
    let job = job.advance(&mut state, rendered()).advance(&mut state, located());
    assert!(matches!(&job.stage, PreviewStage::Open { .. }));
    assert_eq!(save(&mut state, FLOW), None);
}

#[test]
fn requests_are_always_answered() {
    let mut state = State::new();
    open(&mut state, "u", "text");
    let r = handle_request(&state, &Request::CodeAction { uri: s("u.mmd") });
    assert!(matches!(r.reply, Reply::Actions(actions) if actions.len() == 3));
    assert!(r.action.is_none() && r.toast.is_none());
    let run = |name: &str, uri: &str| {
        handle_request(
            &state,
            &Request::ExecuteCommand { command: s(name), arguments: vec![Some(s(uri))] },
        )
    };
    let r = run("mermaid.preview", "u");
    assert!(matches!(r.reply, Reply::Null));
    assert!(matches!(r.action, Some(CommandAction::Preview { .. })) && r.toast.is_none());
    let r = run("mermaid.preview", "v");
    assert!(matches!(r.reply, Reply::Null) && r.action.is_none());
    let toast = r.toast.unwrap();
    assert!(toast.severity == Severity::Error);
    assert_eq!(toast.message, "document is not open: v");
    let r = handle_request(&state, &Request::Other);
    assert!(matches!(r.reply, Reply::Null) && r.action.is_none() && r.toast.is_none());
}

#[test]
fn outcomes_are_told() {
    let toast = export_toast(b"/a/x.png", &Ok(()));
    assert!(toast.severity == Severity::Info);
    assert_eq!(toast.message, "Exported /a/x.png");
    assert_eq!(export_toast(&[b'/', 0xff, b'x'], &Ok(())).message, "Exported /\u{fffd}x");
    let toast = export_toast(b"/a/x.png", &Err(RenderError::EmptyDiagram));
    assert!(toast.severity == Severity::Error);
    assert_eq!(toast.message, "Mermaid export failed: diagram is empty");
    let toast = refresh_toast(&RenderError::Failed { summary: s("bad") });
    assert!(toast.severity == Severity::Error);
    assert_eq!(toast.message, "Mermaid: bad");
}

#[test]
fn editors_are_tried_in_order() {
    let tried: Vec<String> = (0..3).map(|n| open_in_editor(b"/x.png", n).unwrap()).collect();
    assert_eq!(tried, vec!["zed", "zeditor", "xdg-open"]);
    assert_eq!(
        open_in_editor(b"/x.png", 3),
        Err(s("could not open /x.png: no `zed` CLI on PATH"))
    );
}

#[test]
fn saves_while_rendering_coalesce_into_one() {
    let mut renders = Renders::new();
    assert_eq!(refresh_preview(&mut renders, "u", s("1")), Some(s("1")));
    assert_eq!(refresh_preview(&mut renders, "u", s("2")), None);
    assert_eq!(refresh_preview(&mut renders, "u", s("3")), None);
    assert_eq!(refresh_preview(&mut renders, "v", s("x")), Some(s("x")));
    assert!(matches!(finish_render(&mut renders, "u"), AfterRender::Render(t) if t == "3"));
    assert!(matches!(finish_render(&mut renders, "u"), AfterRender::Rest));
    assert_eq!(refresh_preview(&mut renders, "u", s("4")), Some(s("4")));
}

#[test]
fn closing_waits_for_a_running_render() {
    let mut renders = Renders::new();
    assert!(close_preview(&mut renders, "u"));
    refresh_preview(&mut renders, "u", s("1"));
    refresh_preview(&mut renders, "u", s("2"));
    assert!(!close_preview(&mut renders, "u"));
    assert_eq!(refresh_preview(&mut renders, "u", s("3")), None);
    assert!(matches!(finish_render(&mut renders, "u"), AfterRender::Clean));
    assert!(close_preview(&mut renders, "u"));
    refresh_preview(&mut renders, "u", s("4"));
    assert!(matches!(finish_render(&mut renders, "u"), AfterRender::Rest));
    assert!(close_preview(&mut renders, "u"));
}

#[test]
fn abandoned_render_leaves_no_slot() {
    let mut renders = Renders::new();
    assert_eq!(refresh_preview(&mut renders, "u", s("1")), Some(s("1")));
    renders.abandon("u");
    assert_eq!(refresh_preview(&mut renders, "u", s("2")), Some(s("2")));
}

fn begun_refresh(renders: &mut Renders) -> RefreshJob {
    let start = refresh(renders, s(FLOW), s("1"));
    assert!(start.toast.is_none());
    start.job.unwrap()
}

fn base() -> RefreshEvent {
    RefreshEvent::Located { base: Ok(b"/base".to_vec()) }
}

fn worked() -> RefreshEvent {
    RefreshEvent::Rendered { outcome: Ok(()) }
}

fn failed() -> RefreshEvent {
    RefreshEvent::Rendered { outcome: Err(RenderError::Failed { summary: s("bad") }) }
}

#[test]
fn failed_refresh_is_reported_once_and_goes_on() {
    let mut renders = Renders::new();
    let place = preview_path(b"/base", FLOW).ok().unwrap();
    let job = begun_refresh(&mut renders);
    assert!(matches!(&job.stage, RefreshStage::Locate { source } if source == "1"));
    let step = job.advance(&mut renders, base());
    assert!(step.toast.is_none());
    assert!(matches!(&step.job.stage, RefreshStage::Render { target, source } if *target == place && source == "1"));
    let second = refresh(&mut renders, s(FLOW), s("2"));
    assert!(second.job.is_none() && second.toast.is_none());
    let step = step.job.advance(&mut renders, failed());
    let toast = step.toast.unwrap();
    assert!(toast.severity == Severity::Error);
    assert_eq!(toast.message, "Mermaid: bad");
    assert!(matches!(&step.job.stage, RefreshStage::Render { target, source } if *target == place && source == "2"));
    let step = step.job.advance(&mut renders, worked());
    assert!(step.toast.is_none());
    assert!(matches!(&step.job.stage, RefreshStage::Done));
    assert!(refresh(&mut renders, s(FLOW), s("3")).job.is_some());
}

#[test]
fn refresh_of_a_closed_document_cleans_up() {
    let mut renders = Renders::new();
    let step = begun_refresh(&mut renders).advance(&mut renders, base());
    assert!(!close_preview(&mut renders, FLOW));
    let step = step.job.advance(&mut renders, failed());
    assert!(step.toast.is_some());
    assert!(matches!(&step.job.stage, RefreshStage::Clean));
    let step = step.job.advance(&mut renders, worked());
    assert!(matches!(&step.job.stage, RefreshStage::Clean));
    let step = step.job.advance(&mut renders, RefreshEvent::Cleaned);
    assert!(matches!(&step.job.stage, RefreshStage::Done) && step.toast.is_none());
    assert!(close_preview(&mut renders, FLOW));
}

#[test]
fn refresh_without_a_place_is_reported_and_given_up() {
    let mut renders = Renders::new();
    let job = begun_refresh(&mut renders);
    let step = job.advance(&mut renders, RefreshEvent::Located { base: Err(s("not private")) });
    let toast = step.toast.unwrap();
    assert!(toast.severity == Severity::Error);
    assert_eq!(toast.message, "not private");
    assert!(matches!(&step.job.stage, RefreshStage::Done));
    // The slot is free again.
    begun_refresh(&mut renders);

    let start = refresh(&mut renders, s("untitled:1"), s("x"));
    assert!(start.job.is_none());
    assert_eq!(start.toast.unwrap().message, "document is not a local file: untitled:1");
    assert!(close_preview(&mut renders, "untitled:1"));
}

#[test]
fn steps_of_a_refresh_can_be_taken_alone() {
    let mut renders = Renders::new();
    refresh_preview(&mut renders, FLOW, s("1"));
    refresh_preview(&mut renders, FLOW, s("2"));
    let done = after_refresh(&mut renders, FLOW, &Err(RenderError::EmptyDiagram));
    assert_eq!(done.toast.unwrap().message, "Mermaid: diagram is empty");
    assert!(matches!(done.next, AfterRender::Render(t) if t == "2"));
    let done = after_refresh(&mut renders, FLOW, &Ok(()));
    assert!(done.toast.is_none() && matches!(done.next, AfterRender::Rest));
    let place = preview_path(b"/base", FLOW).ok();
    assert_eq!(refresh_place(&mut renders, FLOW, Ok(b"/base".to_vec())).ok(), place);
    match refresh_place(&mut renders, "no url", Ok(b"/base".to_vec())) {
        Err(toast) => assert_eq!(toast.message, "parsing document uri"),
        Ok(_) => panic!(),
    }
}

#[test]
fn preview_that_would_replace_its_source_is_told() {
    let error = PreviewError::OntoSource(s("file:///b/x.png"));
    assert_eq!(error.message(), "preview would replace its source: file:///b/x.png");
    assert!(matches!(preview_path(b"/b", "untitled:1"), Err(PreviewError::Source(_))));
    assert!(preview_path(b"/b", "file:///b/x.png").is_ok());
}
