//! Opening a preview: finding its place, rendering it there, and opening it as a tab.

use crate::preview;
use crate::render;
use crate::server;
use crate::uri;
use vstd::prelude::*;

verus! {

/// What is to be done next for a preview.
pub enum PreviewStage {
    /// Find or create the base directory of all previews.
    Locate,
    /// Render the document to `target`.
    Render { target: Vec<u8> },
    /// Open the image `target` as a tab.
    Open { target: Vec<u8> },
    /// Nothing is left to do. A failure holds what the user is told.
    Done { result: Result<(), String> },
}

/// How a stage went.
pub enum PreviewEvent {
    /// The base directory, or why it cannot be used.
    Located { base: Result<Vec<u8>, String> },
    /// How the render went.
    Rendered { outcome: Result<(), render::RenderError> },
    /// How opening the tab went.
    Opened { result: Result<(), String> },
}

/// A preview of the document `uri`, whose text is `source`, that is being opened.
pub struct PreviewJob {
    pub uri: String,
    pub source: String,
    pub stage: PreviewStage,
}

/// Whether `stage` is the end, with a failure of which the user is told `message`.
pub open spec fn failed_with(stage: PreviewStage, message: Seq<char>) -> bool {
    stage matches PreviewStage::Done { result: Err(m) } && m@ == message
}

/// Whether the preview is open.
pub open spec fn succeeded(stage: PreviewStage) -> bool {
    stage matches PreviewStage::Done { result: Ok(()) }
}

/// The stage that a preview of the document `uri` starts with. A document that has no path is
/// refused before anything is done.
pub open spec fn begins(uri: Seq<char>, stage: PreviewStage) -> bool {
    match preview::unplaced(uri) {
        Some(message) => failed_with(stage, message),
        None => stage is Locate,
    }
}

/// Whether `next` is the stage after `stage`, which went as `event` says. An event of another
/// stage changes nothing.
pub open spec fn follows(
    uri: Seq<char>,
    stage: PreviewStage,
    event: PreviewEvent,
    next: PreviewStage,
) -> bool {
    match (stage, event) {
        (PreviewStage::Locate, PreviewEvent::Located { base: Ok(base) }) => match preview::place(
            base@,
            uri,
        ) {
            Ok(p) => next matches PreviewStage::Render { target } && target@ == p,
            Err(message) => failed_with(next, message),
        },
        (PreviewStage::Locate, PreviewEvent::Located { base: Err(message) }) => failed_with(
            next,
            message@,
        ),
        (PreviewStage::Render { target }, PreviewEvent::Rendered { outcome: Ok(()) }) => next
            == (PreviewStage::Open { target: target }),
        (PreviewStage::Render { target }, PreviewEvent::Rendered { outcome: Err(error) }) =>
        failed_with(next, error.text()),
        (PreviewStage::Open { target }, PreviewEvent::Opened { result }) => next
            == (PreviewStage::Done { result: result }),
        _ => next == stage,
    }
}

/// Whether `event` says that the tab was opened at `stage`.
pub open spec fn opens(stage: PreviewStage, event: PreviewEvent) -> bool {
    stage is Open && event matches PreviewEvent::Opened { result: Ok(()) }
}

/// The session after `stage`, for a preview of the document `uri`, went as `event` says.
pub open spec fn recorded(
    s: server::Session,
    uri: Seq<char>,
    stage: PreviewStage,
    event: PreviewEvent,
) -> server::Session {
    if opens(stage, event) {
        server::with_preview(s, uri)
    } else {
        s
    }
}

/// Starts to open a preview of the document `uri`, whose text is `source`.
pub fn open_preview(uri: String, source: String) -> (r: PreviewJob)
    ensures
        r.uri == uri,
        r.source == source,
        begins(uri@, r.stage),
{
    let stage = match uri::source_path(uri.as_str()) {
        Ok(_) => PreviewStage::Locate,
        Err(error) => PreviewStage::Done { result: Err(error.message()) },
    };
    PreviewJob { uri: uri, source: source, stage: stage }
}

impl PreviewJob {
    /// The job after its stage went as `event` says. Once the tab is open, `state` knows of the
    /// preview.
    pub fn advance(self, state: &mut server::State, event: PreviewEvent) -> (r: PreviewJob)
        ensures
            r.uri == self.uri,
            r.source == self.source,
            follows(self.uri@, self.stage, event, r.stage),
            final(state)@ == recorded(old(state)@, self.uri@, self.stage, event),
    {
        let stage = match (self.stage, event) {
            (PreviewStage::Locate, PreviewEvent::Located { base: Ok(base) }) => {
                match preview::preview_path(&base, self.uri.as_str()) {
                    Ok(target) => PreviewStage::Render { target: target },
                    Err(error) => PreviewStage::Done { result: Err(error.message()) },
                }
            },
            (PreviewStage::Locate, PreviewEvent::Located { base: Err(message) }) => {
                PreviewStage::Done { result: Err(message) }
            },
            (PreviewStage::Render { target }, PreviewEvent::Rendered { outcome: Ok(()) }) => {
                PreviewStage::Open { target: target }
            },
            (PreviewStage::Render { .. }, PreviewEvent::Rendered { outcome: Err(error) }) => {
                PreviewStage::Done { result: Err(error.message()) }
            },
            (PreviewStage::Open { .. }, PreviewEvent::Opened { result }) => PreviewStage::Done {
                result: server::record_preview(state, self.uri.clone(), result),
            },
            (stage, _) => stage,
        };
        PreviewJob { uri: self.uri, source: self.source, stage: stage }
    }
}

// ---------------------------------------------------------------------------------------------
// What holds of any preview
// ---------------------------------------------------------------------------------------------

/// Whether `stages` is a course that opening a preview of the document `uri` can take, with
/// `events[i]` between `stages[i]` and `stages[i + 1]`.
pub open spec fn course(
    uri: Seq<char>,
    stages: Seq<PreviewStage>,
    events: Seq<PreviewEvent>,
) -> bool {
    &&& stages.len() == events.len() + 1
    &&& begins(uri, stages[0])
    &&& forall|i: int|
        0 <= i < events.len() ==> follows(uri, #[trigger] stages[i], events[i], stages[i + 1])
}

/// Whether each stage but the last is answered with an event of its own kind.
pub open spec fn answered(stages: Seq<PreviewStage>, events: Seq<PreviewEvent>) -> bool {
    forall|i: int|
        0 <= i < events.len() ==> match #[trigger] stages[i] {
            PreviewStage::Locate => events[i] is Located,
            PreviewStage::Render { .. } => events[i] is Rendered,
            PreviewStage::Open { .. } => events[i] is Opened,
            PreviewStage::Done { .. } => false,
        }
}

/// The session after the first `n` events of a course.
pub open spec fn session_after(
    s: server::Session,
    uri: Seq<char>,
    stages: Seq<PreviewStage>,
    events: Seq<PreviewEvent>,
    n: nat,
) -> server::Session
    decreases n,
{
    if n == 0 {
        s
    } else {
        let k = (n - 1) as nat;
        recorded(session_after(s, uri, stages, events, k), uri, stages[k as int], events[k as int])
    }
}

/// A preview is placed, rendered there and opened from there, in that order, each only once what
/// comes before it went well. It succeeds if and only if all three did.
pub proof fn preview_goes_in_order(
    uri: Seq<char>,
    stages: Seq<PreviewStage>,
    events: Seq<PreviewEvent>,
)
    requires
        course(uri, stages, events),
        answered(stages, events),
    ensures
        events.len() <= 3,
        events.len() == 0 && stages.last() is Done <==> preview::unplaced(uri) is Some,
        events.len() > 0 ==> stages[0] is Locate && events[0] is Located,
        events.len() > 1 ==> (events[0] matches PreviewEvent::Located { base: Ok(base) } && (
        stages[1] matches PreviewStage::Render { target } && preview::place(base@, uri) == Ok::<
            Seq<u8>,
            Seq<char>,
        >(target@))
            && events[1] is Rendered),
        events.len() > 2 ==> (events[1] matches PreviewEvent::Rendered { outcome: Ok(()) })
            && stages[2] == (PreviewStage::Open { target: stages[1]->Render_target })
            && events[2] is Opened,
        succeeded(stages.last()) <==> events.len() == 3 && (
        events[2] matches PreviewEvent::Opened { result: Ok(()) }),
{
    let n = events.len() as int;
    if n > 0 {
        assert(stages[0] is Locate);
        assert(follows(uri, stages[0], events[0], stages[1]));
        assert(stages[1] is Render || stages[1] is Done);
    }
    if n > 1 {
        assert(stages[1] is Render);
        assert(follows(uri, stages[1], events[1], stages[2]));
        assert(stages[2] is Open || stages[2] is Done);
    }
    if n > 2 {
        assert(stages[2] is Open);
        assert(follows(uri, stages[2], events[2], stages[3]));
        assert(stages[3] is Done);
    }
    if n > 3 {
        assert(stages[3] is Done);
    }
}

/// Whatever events come, a tab is opened only on an image that was rendered before, at the
/// document's own place, and the preview succeeds only once the tab was opened.
pub proof fn preview_opens_only_what_was_rendered(
    uri: Seq<char>,
    stages: Seq<PreviewStage>,
    events: Seq<PreviewEvent>,
    i: int,
)
    requires
        course(uri, stages, events),
        0 <= i < stages.len(),
    ensures
        stages[i] matches PreviewStage::Render { target } ==> exists|j: int|
            0 <= j < i && stages[j] is Locate && (#[trigger] events[j] matches
            PreviewEvent::Located { base: Ok(base) } && preview::place(base@, uri) == Ok::<
                Seq<u8>,
                Seq<char>,
            >(target@)),
        stages[i] is Open ==> exists|j: int|
            0 <= j < i && (stages[j] matches PreviewStage::Render { target } && stages[i] == (
            PreviewStage::Open { target: target })) && (#[trigger] events[j] matches
            PreviewEvent::Rendered { outcome: Ok(()) }),
        succeeded(stages[i]) ==> exists|j: int|
            0 <= j < i && opens(stages[j], #[trigger] events[j]),
    decreases i,
{
    if i > 0 {
        let k = i - 1;
        preview_opens_only_what_was_rendered(uri, stages, events, k);
        assert(follows(uri, stages[k], events[k], stages[k + 1]));
    }
}

/// No stage of the render of a preview touches the file of its document, unless that is the input in
/// a scratch directory.
pub proof fn preview_leaves_source_file_alone(
    uri: Seq<char>,
    stages: Seq<PreviewStage>,
    events: Seq<PreviewEvent>,
    i: int,
    source: Seq<char>,
    render_stages: Seq<render::Stage>,
    render_events: Seq<render::RenderEvent>,
    k: int,
)
    requires
        course(uri, stages, events),
        0 <= i < stages.len(),
        stages[i] matches PreviewStage::Render { target } && render::course(
            source,
            target@,
            render_stages,
            render_events,
        ),
        0 <= k < render_stages.len(),
        !render::scratch_input(render_events, uri::url_file_path(uri)->0),
    ensures
        stages[i] matches PreviewStage::Render { target } && !render::touched(
            target@,
            render_stages[k],
        ).contains(uri::url_file_path(uri)->0),
{
    preview_opens_only_what_was_rendered(uri, stages, events, i);
    if let PreviewStage::Render { target } = stages[i] {
        let j = choose|j: int|
            0 <= j < i && stages[j] is Locate && (#[trigger] events[j] matches
                PreviewEvent::Located { base: Ok(base) } && preview::place(base@, uri) == Ok::<
                Seq<u8>,
                Seq<char>,
            >(target@));
        if let PreviewEvent::Located { base: Ok(base) } = events[j] {
            preview::preview_leaves_source_file_alone(
                source,
                uri::url_file_path(uri)->0,
                preview::dir_for(base@, preview::uri_hash(uri)),
                render_stages,
                render_events,
                k,
            );
        }
    }
}

/// Opening a preview changes nothing of the session but that, if and only if it succeeds, the
/// document has a preview. Documents keep their texts.
pub proof fn preview_is_recorded_on_success_only(
    s: server::Session,
    uri: Seq<char>,
    stages: Seq<PreviewStage>,
    events: Seq<PreviewEvent>,
    n: nat,
)
    requires
        course(uri, stages, events),
        n < stages.len(),
    ensures
        session_after(s, uri, stages, events, n) == (if succeeded(stages[n as int]) {
            server::with_preview(s, uri)
        } else {
            s
        }),
        session_after(s, uri, stages, events, n).documents == s.documents,
    decreases n,
{
    if n > 0 {
        let k = (n - 1) as nat;
        preview_is_recorded_on_success_only(s, uri, stages, events, k);
        assert(follows(uri, stages[k as int], events[k as int], stages[n as int]));
    }
}

/// Once a preview succeeded or failed, it stays so.
pub proof fn preview_ends_once(
    uri: Seq<char>,
    stages: Seq<PreviewStage>,
    events: Seq<PreviewEvent>,
    i: int,
    j: int,
)
    requires
        course(uri, stages, events),
        0 <= i <= j < stages.len(),
        stages[i] is Done,
    ensures
        stages[j] == stages[i],
    decreases j,
{
    if i < j {
        preview_ends_once(uri, stages, events, i, j - 1);
        assert(follows(uri, stages[j - 1], events[j - 1], stages[j - 1 + 1]));
    }
}

/// What each step of opening a preview does: it renders to the place of the document's preview, opens
/// exactly what was rendered, and ends with the error of the first step that failed.
pub proof fn opening_goes_step_by_step(
    uri: Seq<char>,
    stage: PreviewStage,
    event: PreviewEvent,
    next: PreviewStage,
)
    requires
        follows(uri, stage, event, next),
    ensures
        stage is Locate && event is Located && event->base is Ok && preview::place(
            (event->base->Ok_0)@,
            uri,
        ) is Ok ==> (next matches PreviewStage::Render { target } && preview::place(
            (event->base->Ok_0)@,
            uri,
        ) == Ok::<Seq<u8>, Seq<char>>(target@)),
        stage is Locate && event is Located && event->base is Ok && preview::place(
            (event->base->Ok_0)@,
            uri,
        ) is Err ==> (next matches PreviewStage::Done { result: Err(message) } && message@
            == preview::place((event->base->Ok_0)@, uri)->Err_0),
        stage is Locate && event is Located && event->base is Err ==> (
        next matches PreviewStage::Done { result: Err(message) } && message@
            == (event->base->Err_0)@),
        stage is Render && event is Rendered && event->outcome is Ok ==> (
        next matches PreviewStage::Open { target } && target@ == stage->Render_target@),
        stage is Render && event is Rendered && event->outcome is Err ==> (
        next matches PreviewStage::Done { result: Err(message) } && message@
            == (event->outcome->Err_0).text()),
        stage is Open && event is Opened && event->result is Ok ==> (
        next matches PreviewStage::Done { result: Ok(()) }),
        stage is Open && event is Opened && event->result is Err ==> (
        next matches PreviewStage::Done { result: Err(message) } && message@
            == (event->result->Err_0)@),
        !(stage is Locate && event is Located) && !(stage is Render && event is Rendered) && !(
        stage is Open && event is Opened) ==> next == stage,
{
}

/// A preview begins with finding its place, unless its document has no path: then it ends at once,
/// with the reason.
pub proof fn documents_without_a_path_are_refused_at_once(uri: Seq<char>, stage: PreviewStage)
    requires
        begins(uri, stage),
    ensures
        uri::url_parses(uri) && uri::url_file_path(uri) is Some ==> stage is Locate,
        !uri::url_parses(uri) ==> (stage matches PreviewStage::Done { result: Err(message) }
            && message@ == "parsing document uri"@),
        uri::url_parses(uri) && uri::url_file_path(uri) is None ==> (
        stage matches PreviewStage::Done { result: Err(message) } && message@
            == "document is not a local file: "@ + uri),
{
}

/// The session takes note of a preview exactly when its tab was opened, and of nothing else.
pub proof fn only_an_opened_tab_is_noted(
    s: server::Session,
    uri: Seq<char>,
    stage: PreviewStage,
    event: PreviewEvent,
)
    ensures
        recorded(s, uri, stage, event).documents == s.documents,
        stage is Open && event is Opened && event->result is Ok ==> recorded(
            s,
            uri,
            stage,
            event,
        ).previewing == s.previewing.insert(uri),
        !(stage is Open && event is Opened && event->result is Ok) ==> recorded(
            s,
            uri,
            stage,
            event,
        ) == s,
{
}

} // verus!
