//! Re-rendering an open preview after a save: one render thread does what a `RefreshJob` says by
//! its stage, and tells it how that went by an event.

use crate::command;
use crate::preview;
use crate::render;
use crate::slots;
use crate::uri;
use vstd::prelude::*;

verus! {

/// What a render thread does next.
pub enum RefreshStage {
    /// Find or create the base directory of all previews.
    Locate { source: String },
    /// Render `source` to `target`.
    Render { target: Vec<u8>, source: String },
    /// Remove the preview's directory.
    Clean,
    /// Stop.
    Done,
}

/// How what a stage says went.
pub enum RefreshEvent {
    /// The base directory, or why it cannot be used.
    Located { base: Result<Vec<u8>, String> },
    /// How the render went.
    Rendered { outcome: Result<(), render::RenderError> },
    /// The directory was removed, as far as that was possible.
    Cleaned,
}

/// What the render thread of the document `uri` works on.
pub struct RefreshJob {
    pub uri: String,
    pub stage: RefreshStage,
}

/// A render thread to begin, if any, and what the user is told, if anything.
pub struct RefreshStart {
    pub job: Option<RefreshJob>,
    pub toast: Option<command::Toast>,
}

/// A job after an event, and what the user is told, if anything.
pub struct RefreshStep {
    pub job: RefreshJob,
    pub toast: Option<command::Toast>,
}

/// What a render thread does once its render is done, and what the user is told, if anything.
pub struct Refreshed {
    pub next: slots::AfterRender,
    pub toast: Option<command::Toast>,
}

/// Whether the user is told of an error, by exactly `message`, or of nothing.
pub open spec fn tells(toast: Option<command::Toast>, message: Option<Seq<char>>) -> bool {
    match message {
        Some(m) => toast matches Some(t) && t.severity is Error && t.message@ == m,
        None => toast is None,
    }
}

/// What the user is told of a re-render. A syntax error mid-edit is normal and expected: it is
/// reported, and the last good render stays in the tab.
pub open spec fn report(outcome: Result<(), render::RenderError>) -> Option<Seq<char>> {
    match outcome {
        Ok(()) => None,
        Err(error) => Some("Mermaid: "@ + error.text()),
    }
}

/// What the render thread of `uri` does once its render went as `outcome` says. It goes on in the
/// same way whether that worked or not.
pub fn after_refresh(
    renders: &mut slots::Renders,
    uri: &str,
    outcome: &Result<(), render::RenderError>,
) -> (r: Refreshed)
    ensures
        tells(r.toast, report(*outcome)),
        r.next@ == slots::next(old(renders)@, uri@),
        final(renders)@ == slots::after_render(old(renders)@, uri@),
{
    let toast = match outcome {
        Ok(()) => None,
        Err(error) => Some(command::refresh_toast(error)),
    };
    Refreshed { next: slots::finish_render(renders, uri), toast: toast }
}

/// Where the render thread of `uri` renders to, from the base directory or why that cannot be used.
/// Where there is no place, the user is told why, and the thread gives its slot up.
pub fn refresh_place(
    renders: &mut slots::Renders,
    uri: &str,
    base: Result<Vec<u8>, String>,
) -> (r: Result<Vec<u8>, command::Toast>)
    ensures
        match found_place(uri@, base) {
            Ok(p) => final(renders)@ == old(renders)@ && (r matches Ok(target) && target@ == p),
            Err(message) => final(renders)@ == old(renders)@.remove(uri@) && (
            r matches Err(toast) && toast.severity is Error && toast.message@ == message),
        },
{
    let message = match base {
        Ok(base) => match preview::preview_path(&base, uri) {
            Ok(target) => {
                return Ok(target);
            },
            Err(error) => error.message(),
        },
        Err(message) => message,
    };
    renders.abandon(uri);
    Err(command::show_error(message))
}

/// The place of the preview of `uri`, or what the user is told where it has none.
pub open spec fn found_place(uri: Seq<char>, base: Result<Vec<u8>, String>) -> Result<
    Seq<u8>,
    Seq<char>,
> {
    match base {
        Ok(base) => preview::place(base@, uri),
        Err(message) => Err(message@),
    }
}

/// Re-renders the open preview of `uri` after a save: a render thread to begin, or none where one
/// is running already and takes the source up later. A document that has no path is refused before
/// anything is done.
pub fn refresh(renders: &mut slots::Renders, uri: String, source: String) -> (r: RefreshStart)
    ensures
        slots::slot_of(old(renders)@, uri@).rendering ==> r.job is None && r.toast is None
            && final(renders)@ == slots::after_save(old(renders)@, uri@, source@),
        !slots::slot_of(old(renders)@, uri@).rendering ==> tells(r.toast, preview::unplaced(uri@))
            && match preview::unplaced(uri@) {
            Some(_) => r.job is None && final(renders)@ == old(renders)@.remove(uri@),
            None => (r.job matches Some(job) && job.uri == uri && job.stage == (
            RefreshStage::Locate { source: source })) && final(renders)@ == slots::after_save(
                old(renders)@,
                uri@,
                source@,
            ),
        },
{
    let source = match slots::refresh_preview(renders, uri.as_str(), source) {
        Some(source) => source,
        None => {
            return RefreshStart { job: None, toast: None };
        },
    };
    match uri::source_path(uri.as_str()) {
        Ok(_) => RefreshStart {
            job: Some(RefreshJob { uri: uri, stage: RefreshStage::Locate { source: source } }),
            toast: None,
        },
        Err(error) => {
            renders.abandon(uri.as_str());
            assert(renders@ =~= old(renders)@.remove(uri@));
            RefreshStart { job: None, toast: Some(command::show_error(error.message())) }
        },
    }
}

/// Whether `next` is the stage after `stage`, in the thread of `uri`, which went as `event` says
/// while the slots were `renders`. An event of another stage changes nothing.
pub open spec fn follows(
    renders: Map<Seq<char>, slots::Slot>,
    uri: Seq<char>,
    stage: RefreshStage,
    event: RefreshEvent,
    next: RefreshStage,
) -> bool {
    match (stage, event) {
        (RefreshStage::Locate { source }, RefreshEvent::Located { base }) => match found_place(
            uri,
            base,
        ) {
            Ok(p) => next matches RefreshStage::Render { target, source: s } && target@ == p && s
                == source,
            Err(_) => next is Done,
        },
        (RefreshStage::Render { target, .. }, RefreshEvent::Rendered { .. }) => match slots::next(
            renders,
            uri,
        ) {
            slots::Next::Clean => next is Clean,
            slots::Next::Render(newer) => next matches RefreshStage::Render { target: t, source }
                && t == target && source@ == newer,
            slots::Next::Rest => next is Done,
        },
        (RefreshStage::Clean, RefreshEvent::Cleaned) => next is Done,
        _ => next == stage,
    }
}

/// What the user is told once `stage`, in the thread of `uri`, went as `event` says.
pub open spec fn told(uri: Seq<char>, stage: RefreshStage, event: RefreshEvent) -> Option<Seq<char>> {
    match (stage, event) {
        (RefreshStage::Locate { .. }, RefreshEvent::Located { base }) => match found_place(
            uri,
            base,
        ) {
            Ok(_) => None,
            Err(message) => Some(message),
        },
        (RefreshStage::Render { .. }, RefreshEvent::Rendered { outcome }) => report(outcome),
        _ => None,
    }
}

/// The slots after `stage`, in the thread of `uri`, went as `event` says.
pub open spec fn slots_after(
    renders: Map<Seq<char>, slots::Slot>,
    uri: Seq<char>,
    stage: RefreshStage,
    event: RefreshEvent,
) -> Map<Seq<char>, slots::Slot> {
    match (stage, event) {
        (RefreshStage::Locate { .. }, RefreshEvent::Located { base }) => if found_place(
            uri,
            base,
        ) is Ok {
            renders
        } else {
            renders.remove(uri)
        },
        (RefreshStage::Render { .. }, RefreshEvent::Rendered { .. }) => slots::after_render(
            renders,
            uri,
        ),
        _ => renders,
    }
}

impl RefreshJob {
    /// The job after its stage went as `event` says, and what the user is told of that.
    pub fn advance(self, renders: &mut slots::Renders, event: RefreshEvent) -> (r: RefreshStep)
        ensures
            r.job.uri == self.uri,
            follows(old(renders)@, self.uri@, self.stage, event, r.job.stage),
            tells(r.toast, told(self.uri@, self.stage, event)),
            final(renders)@ == slots_after(old(renders)@, self.uri@, self.stage, event),
    {
        let mut toast: Option<command::Toast> = None;
        let stage = match (self.stage, event) {
            (RefreshStage::Locate { source }, RefreshEvent::Located { base }) => {
                match refresh_place(renders, self.uri.as_str(), base) {
                    Ok(target) => RefreshStage::Render { target: target, source: source },
                    Err(t) => {
                        toast = Some(t);
                        RefreshStage::Done
                    },
                }
            },
            (RefreshStage::Render { target, .. }, RefreshEvent::Rendered { outcome }) => {
                let done = after_refresh(renders, self.uri.as_str(), &outcome);
                toast = done.toast;
                match done.next {
                    slots::AfterRender::Clean => RefreshStage::Clean,
                    slots::AfterRender::Render(newer) => RefreshStage::Render {
                        target: target,
                        source: newer,
                    },
                    slots::AfterRender::Rest => RefreshStage::Done,
                }
            },
            (RefreshStage::Clean, RefreshEvent::Cleaned) => RefreshStage::Done,
            (stage, _) => stage,
        };
        RefreshStep { job: RefreshJob { uri: self.uri, stage: stage }, toast: toast }
    }
}

// ---------------------------------------------------------------------------------------------
// What holds of any re-render
// ---------------------------------------------------------------------------------------------

/// A re-render that failed is reported once, and changes nothing else: the thread goes on as after
/// one that worked, of which nothing is said.
pub proof fn failed_refresh_is_only_reported(
    renders: Map<Seq<char>, slots::Slot>,
    uri: Seq<char>,
    stage: RefreshStage,
    error: render::RenderError,
    next: RefreshStage,
)
    requires
        stage is Render,
    ensures
        ({
            let failed = RefreshEvent::Rendered { outcome: Err(error) };
            let worked = RefreshEvent::Rendered { outcome: Ok(()) };
            &&& told(uri, stage, failed) == Some("Mermaid: "@ + error.text())
            &&& told(uri, stage, worked) is None
            &&& follows(renders, uri, stage, failed, next) <==> follows(
                renders,
                uri,
                stage,
                worked,
                next,
            )
            &&& slots_after(renders, uri, stage, failed) == slots_after(renders, uri, stage, worked)
        }),
{
}

/// A thread removes the preview's directory only once its document was closed, renders again only
/// what was saved meanwhile, to the same place, and no slot but its own changes.
pub proof fn refresh_does_what_its_slot_says(
    renders: Map<Seq<char>, slots::Slot>,
    uri: Seq<char>,
    other: Seq<char>,
    stage: RefreshStage,
    event: RefreshEvent,
    next: RefreshStage,
)
    requires
        follows(renders, uri, stage, event, next),
        uri != other,
    ensures
        next is Clean && !(stage is Clean) ==> slots::slot_of(renders, uri).closing,
        stage is Render && next is Render && next != stage ==> next->Render_target
            == stage->Render_target && slots::slot_of(renders, uri).pending == Some(
            next->Render_source@,
        ),
        slots::slot_of(slots_after(renders, uri, stage, event), other) == slots::slot_of(
            renders,
            other,
        ),
{
}

/// A re-render is told only where it failed, by the words of its error, and a message is shown as an
/// error, as it is.
pub proof fn failures_are_told_as_they_are(
    toast: Option<command::Toast>,
    message: Seq<char>,
    error: render::RenderError,
)
    ensures
        tells(toast, Some(message)) <==> (toast is Some && toast->0.severity is Error
            && toast->0.message@ == message),
        tells(toast, None) <==> toast is None,
        report(Err(error)) == Some("Mermaid: "@ + error.text()),
        report(Ok(())) is None,
{
}

/// What each step of a re-render does: it renders the saved source to the place of its document's
/// preview, reports and gives up where there is none, and, once a render is done, does what its
/// slot says.
pub proof fn refresh_goes_step_by_step(
    renders: Map<Seq<char>, slots::Slot>,
    uri: Seq<char>,
    stage: RefreshStage,
    event: RefreshEvent,
    next: RefreshStage,
)
    requires
        follows(renders, uri, stage, event, next),
    ensures
        stage is Locate && event is Located && event->base is Ok && preview::place(
            (event->base->Ok_0)@,
            uri,
        ) is Ok ==> (next matches RefreshStage::Render { target, source } && preview::place(
            (event->base->Ok_0)@,
            uri,
        ) == Ok::<Seq<u8>, Seq<char>>(target@) && source@ == stage->Locate_source@) && told(
            uri,
            stage,
            event,
        ) is None && slots_after(renders, uri, stage, event) == renders,
        stage is Locate && event is Located && event->base is Ok && preview::place(
            (event->base->Ok_0)@,
            uri,
        ) is Err ==> next is Done && told(uri, stage, event) == Some(
            preview::place((event->base->Ok_0)@, uri)->Err_0,
        ) && slots_after(renders, uri, stage, event) == renders.remove(uri),
        stage is Locate && event is Located && event->base is Err ==> next is Done && told(
            uri,
            stage,
            event,
        ) == Some((event->base->Err_0)@) && slots_after(renders, uri, stage, event)
            == renders.remove(uri),
        stage is Render && event is Rendered ==> slots_after(renders, uri, stage, event)
            == slots::after_render(renders, uri),
        stage is Render && event is Rendered && event->outcome is Err ==> told(uri, stage, event)
            == Some("Mermaid: "@ + (event->outcome->Err_0).text()),
        stage is Render && event is Rendered && event->outcome is Ok ==> told(uri, stage, event)
            is None,
        stage is Render && event is Rendered && renders.contains_key(uri) && renders[uri].closing
            ==> next is Clean,
        stage is Render && event is Rendered && renders.contains_key(uri) && !renders[uri].closing
            && renders[uri].pending is Some ==> (next matches RefreshStage::Render {
            target,
            source,
        } && target@ == stage->Render_target@ && source@ == renders[uri].pending->0),
        stage is Render && event is Rendered && (!renders.contains_key(uri)
            || !renders[uri].closing && renders[uri].pending is None) ==> next is Done,
        stage is Clean && event is Cleaned ==> next is Done,
        stage is Done ==> next is Done,
        !(stage is Locate && event is Located) && !(stage is Render && event is Rendered) && !(
        stage is Clean && event is Cleaned) ==> next == stage && told(uri, stage, event) is None
            && slots_after(renders, uri, stage, event) == renders,
{
    if renders.contains_key(uri) {
        assert(uri.push('x') != uri) by {
            assert(uri.push('x').len() != uri.len());
        }
        slots::finished_threads_take_the_queue(renders, uri, uri.push('x'));
    } else {
        slots::threads_without_a_slot_rest(renders, uri);
    }
}

} // verus!
