//! Coordination of the renders that refresh open previews.

use vstd::hash_map::StringHashMap;
use vstd::prelude::*;

verus! {

/// Tracks the in-flight render for one preview URI so rapid autosaves coalesce into at most one
/// running render plus one queued follow-up, and so closing a document can defer temp cleanup
/// until the render thread is done touching the directory.
pub struct RenderSlot {
    /// A render thread is currently running for this URI.
    pub rendering: bool,
    /// The newest source that arrived while a render was running; rendered next.
    pub pending: Option<String>,
    /// The source document closed mid-render; the thread cleans up when it finishes.
    pub closing: bool,
}

/// What a `RenderSlot` says.
pub struct Slot {
    pub rendering: bool,
    pub pending: Option<Seq<char>>,
    pub closing: bool,
}

impl View for RenderSlot {
    type V = Slot;

    open spec fn view(&self) -> Slot {
        Slot {
            rendering: self.rendering,
            pending: match self.pending {
                Some(source) => Some(source@),
                None => None,
            },
            closing: self.closing,
        }
    }
}

/// The slots, by URI. Render threads share them.
pub struct Renders {
    slots: StringHashMap<RenderSlot>,
}

impl View for Renders {
    type V = Map<Seq<char>, Slot>;

    closed spec fn view(&self) -> Map<Seq<char>, Slot> {
        self.slots@.map_values(|slot: RenderSlot| slot@)
    }
}

/// The slot of a URI that nothing is known of.
pub open spec fn idle() -> Slot {
    Slot { rendering: false, pending: None, closing: false }
}

/// The slot of `uri`.
pub open spec fn slot_of(renders: Map<Seq<char>, Slot>, uri: Seq<char>) -> Slot {
    if renders.contains_key(uri) {
        renders[uri]
    } else {
        idle()
    }
}

// ---------------------------------------------------------------------------------------------
// What each operation makes of the slots
// ---------------------------------------------------------------------------------------------

/// The slots after `source` of `uri` was saved.
pub open spec fn after_save(
    renders: Map<Seq<char>, Slot>,
    uri: Seq<char>,
    source: Seq<char>,
) -> Map<Seq<char>, Slot> {
    let slot = slot_of(renders, uri);
    renders.insert(
        uri,
        if slot.rendering {
            Slot { pending: Some(source), ..slot }
        } else {
            Slot { rendering: true, ..slot }
        },
    )
}

/// What a render thread does once its render is done.
pub enum AfterRender {
    /// Remove the preview's directory and stop.
    Clean,
    /// Render this newer source.
    Render(String),
    /// Stop.
    Rest,
}

/// What a render thread does once its render is done, as far as the slot tells.
pub enum Next {
    Clean,
    Render(Seq<char>),
    Rest,
}

impl View for AfterRender {
    type V = Next;

    open spec fn view(&self) -> Next {
        match self {
            AfterRender::Clean => Next::Clean,
            AfterRender::Render(source) => Next::Render(source@),
            AfterRender::Rest => Next::Rest,
        }
    }
}

/// What the render thread of `uri` does once its render is done.
pub open spec fn next(renders: Map<Seq<char>, Slot>, uri: Seq<char>) -> Next {
    let slot = slot_of(renders, uri);
    if slot.closing {
        Next::Clean
    } else {
        match slot.pending {
            Some(source) => Next::Render(source),
            None => Next::Rest,
        }
    }
}

/// The slots after the render thread of `uri` was told what to do next.
pub open spec fn after_render(renders: Map<Seq<char>, Slot>, uri: Seq<char>) -> Map<
    Seq<char>,
    Slot,
> {
    let slot = slot_of(renders, uri);
    match next(renders, uri) {
        Next::Clean => renders.remove(uri),
        Next::Render(_) => renders.insert(uri, Slot { pending: None, ..slot }),
        Next::Rest => renders.insert(uri, Slot { rendering: false, ..slot }),
    }
}

/// The slots after the document `uri` was closed.
pub open spec fn after_close(renders: Map<Seq<char>, Slot>, uri: Seq<char>) -> Map<
    Seq<char>,
    Slot,
> {
    if slot_of(renders, uri).rendering {
        renders.insert(uri, Slot { rendering: true, pending: None, closing: true })
    } else {
        renders.remove(uri)
    }
}

impl Renders {
    /// No slots.
    pub fn new() -> (r: Renders)
        ensures
            r@ == Map::<Seq<char>, Slot>::empty(),
    {
        let r = Renders { slots: StringHashMap::new() };
        assert(r@ =~= Map::<Seq<char>, Slot>::empty());
        r
    }

    /// Takes the slot of `uri` out, or makes an idle one.
    fn take(&mut self, uri: &str) -> (r: RenderSlot)
        ensures
            r@ == slot_of(old(self)@, uri@),
            final(self)@ == old(self)@.remove(uri@),
    {
        let slot = match self.slots.get(uri) {
            Some(slot) => RenderSlot {
                rendering: slot.rendering,
                pending: match &slot.pending {
                    Some(source) => Some(source.clone()),
                    None => None,
                },
                closing: slot.closing,
            },
            None => RenderSlot { rendering: false, pending: None, closing: false },
        };
        self.slots.remove(uri);
        assert(self@ =~= old(self)@.remove(uri@));
        slot
    }

    /// Puts a slot in for `uri`.
    fn put(&mut self, uri: &str, slot: RenderSlot)
        ensures
            final(self)@ == old(self)@.insert(uri@, slot@),
    {
        self.slots.insert(uri.to_owned(), slot);
        assert(self@ =~= old(self)@.insert(uri@, slot@));
    }

    /// Forgets the slot of `uri`, whose render thread could not begin.
    pub fn abandon(&mut self, uri: &str)
        ensures
            final(self)@ == old(self)@.remove(uri@),
    {
        let _ = self.take(uri);
    }
}

/// Re-render an open preview after a save: the source to begin a render thread with, or nothing
/// where one is running already.
///
/// Single-flight per URI: if a render is already running, we just record the newest source as
/// `pending` (overwriting any earlier queued source) instead of spawning a second Chromium. When
/// the running render finishes it picks up that pending source and renders once more. Net: at
/// most one in-flight render plus one queued, per URI.
pub fn refresh_preview(renders: &mut Renders, uri: &str, source: String) -> (r: Option<String>)
    ensures
        final(renders)@ == after_save(old(renders)@, uri@, source@),
        r == (if slot_of(old(renders)@, uri@).rendering {
            None
        } else {
            Some(source)
        }),
{
    let mut slot = renders.take(uri);
    if slot.rendering {
        slot.pending = Some(source);
        renders.put(uri, slot);
        assert(renders@ =~= after_save(old(renders)@, uri@, source@));
        return None;
    }
    slot.rendering = true;
    renders.put(uri, slot);
    assert(renders@ =~= after_save(old(renders)@, uri@, source@));
    Some(source)
}

/// What the render thread of `uri` does once its render is done.
pub fn finish_render(renders: &mut Renders, uri: &str) -> (r: AfterRender)
    ensures
        r@ == next(old(renders)@, uri@),
        final(renders)@ == after_render(old(renders)@, uri@),
{
    let slot = renders.take(uri);
    if slot.closing {
        // The document closed while we rendered; its temp dir can go now that no render is
        // touching it.
        return AfterRender::Clean;
    }
    match slot.pending {
        Some(source) => {
            renders.put(
                uri,
                RenderSlot { rendering: slot.rendering, pending: None, closing: false },
            );
            assert(renders@ =~= after_render(old(renders)@, uri@));
            AfterRender::Render(source)
        },
        None => {
            renders.put(uri, RenderSlot { rendering: false, pending: None, closing: false });
            assert(renders@ =~= after_render(old(renders)@, uri@));
            AfterRender::Rest
        },
    }
}

/// Whether a preview's temp directory is to be removed now that its source document closes. If a
/// render is in flight we defer to that thread (via `closing`) rather than yanking the directory
/// out from under it.
pub fn close_preview(renders: &mut Renders, uri: &str) -> (r: bool)
    ensures
        r == !slot_of(old(renders)@, uri@).rendering,
        final(renders)@ == after_close(old(renders)@, uri@),
{
    let slot = renders.take(uri);
    if slot.rendering {
        renders.put(uri, RenderSlot { rendering: true, pending: None, closing: true });
        assert(renders@ =~= after_close(old(renders)@, uri@));
        return false;
    }
    true
}

// ---------------------------------------------------------------------------------------------
// What holds of any course of events
// ---------------------------------------------------------------------------------------------

/// What can happen to the slots.
pub enum Event {
    /// A previewed document was saved.
    Saved { uri: Seq<char>, source: Seq<char> },
    /// A render thread found no place for its preview, and stops.
    Abandoned { uri: Seq<char> },
    /// A render thread finished a render, and does what it is told.
    Rendered { uri: Seq<char> },
    /// A document was closed.
    Closed { uri: Seq<char> },
}

/// The slots, and how many render threads are running for each URI.
pub struct World {
    pub renders: Map<Seq<char>, Slot>,
    pub threads: Map<Seq<char>, int>,
}

/// How many render threads are running for `uri`.
pub open spec fn running(w: World, uri: Seq<char>) -> int {
    if w.threads.contains_key(uri) {
        w.threads[uri]
    } else {
        0
    }
}

/// Whether `e` can happen: a thread that reports is running.
pub open spec fn possible(w: World, e: Event) -> bool {
    match e {
        Event::Abandoned { uri } => running(w, uri) > 0,
        Event::Rendered { uri } => running(w, uri) > 0,
        _ => true,
    }
}

/// The world after `e`.
pub open spec fn step(w: World, e: Event) -> World {
    match e {
        Event::Saved { uri, source } => World {
            renders: after_save(w.renders, uri, source),
            threads: if slot_of(w.renders, uri).rendering {
                w.threads
            } else {
                w.threads.insert(uri, running(w, uri) + 1)
            },
        },
        Event::Abandoned { uri } => World {
            renders: w.renders.remove(uri),
            threads: w.threads.insert(uri, running(w, uri) - 1),
        },
        Event::Rendered { uri } => World {
            renders: after_render(w.renders, uri),
            threads: if next(w.renders, uri) is Render {
                w.threads
            } else {
                w.threads.insert(uri, running(w, uri) - 1)
            },
        },
        Event::Closed { uri } => World {
            renders: after_close(w.renders, uri),
            threads: w.threads,
        },
    }
}

/// The world after `events`, from one without slots and threads.
pub open spec fn world(events: Seq<Event>) -> World
    decreases events.len(),
{
    if events.len() == 0 {
        World { renders: Map::empty(), threads: Map::empty() }
    } else {
        step(world(events.drop_last()), events.last())
    }
}

/// Whether `events` can happen in this order.
pub open spec fn course(events: Seq<Event>) -> bool
    decreases events.len(),
{
    events.len() > 0 ==> course(events.drop_last()) && possible(
        world(events.drop_last()),
        events.last(),
    )
}

/// What every course of events keeps: the slot of a URI says whether a thread is running for it,
/// there is at most one, and something waits for it, or it is to clean up, only while it runs.
pub open spec fn coordinated(w: World, uri: Seq<char>) -> bool {
    let slot = slot_of(w.renders, uri);
    &&& running(w, uri) == (if slot.rendering {
        1int
    } else {
        0int
    })
    &&& slot.pending is Some ==> slot.rendering
    &&& slot.closing ==> slot.rendering
}

/// Whatever happens, at most one render thread runs per URI, and at most one source waits for it.
pub proof fn single_flight(events: Seq<Event>, uri: Seq<char>)
    requires
        course(events),
    ensures
        coordinated(world(events), uri),
        0 <= running(world(events), uri) <= 1,
    decreases events.len(),
{
    if events.len() > 0 {
        let e = events.last();
        let u = match e {
            Event::Saved { uri, .. } => uri,
            Event::Abandoned { uri } => uri,
            Event::Rendered { uri } => uri,
            Event::Closed { uri } => uri,
        };
        single_flight(events.drop_last(), uri);
        single_flight(events.drop_last(), u);
    }
}

/// A directory is removed only while no render of its document runs: when a document closes, and
/// when a render thread is told to clean up.
pub proof fn removal_waits_for_renders(events: Seq<Event>, uri: Seq<char>)
    requires
        course(events),
    ensures
        !slot_of(world(events).renders, uri).rendering ==> running(world(events), uri) == 0,
        next(world(events).renders, uri) is Clean ==> running(
            step(world(events), Event::Rendered { uri }),
            uri,
        ) == 0,
{
    single_flight(events, uri);
}

/// The newest source saved while a render runs is the one rendered next.
pub proof fn newest_source_is_rendered_next(
    renders: Map<Seq<char>, Slot>,
    uri: Seq<char>,
    older: Seq<char>,
    newest: Seq<char>,
)
    requires
        slot_of(renders, uri).rendering,
        !slot_of(renders, uri).closing,
    ensures
        next(after_save(renders, uri, newest), uri) == Next::Render(newest),
        after_save(after_save(renders, uri, older), uri, newest) == after_save(
            renders,
            uri,
            newest,
        ),
{
    assert(after_save(after_save(renders, uri, older), uri, newest) =~= after_save(
        renders,
        uri,
        newest,
    ));
}

/// Once a document closes mid-render, the thread cleans up when it finishes, whatever is saved in
/// between, and nothing is left of its slot.
pub proof fn closing_mid_render_ends_in_cleanup(
    renders: Map<Seq<char>, Slot>,
    uri: Seq<char>,
    source: Seq<char>,
)
    requires
        slot_of(renders, uri).rendering,
    ensures
        slot_of(after_close(renders, uri), uri).closing,
        slot_of(renders, uri).closing ==> slot_of(after_save(renders, uri, source), uri).closing,
        slot_of(renders, uri).closing ==> next(renders, uri) == Next::Clean
            && !after_render(renders, uri).contains_key(uri),
{
}

/// What happens to one document leaves the slots of the others alone.
pub proof fn slots_are_independent(
    renders: Map<Seq<char>, Slot>,
    uri: Seq<char>,
    other: Seq<char>,
    source: Seq<char>,
)
    requires
        uri != other,
    ensures
        slot_of(after_save(renders, uri, source), other) == slot_of(renders, other),
        slot_of(after_render(renders, uri), other) == slot_of(renders, other),
        slot_of(after_close(renders, uri), other) == slot_of(renders, other),
{
}

// ---------------------------------------------------------------------------------------------
// What each operation comes to
// ---------------------------------------------------------------------------------------------

/// A slot says what it holds.
pub proof fn slots_are_taken_whole(slot: RenderSlot, source: String)
    ensures
        slot@.rendering == slot.rendering,
        slot@.closing == slot.closing,
        slot.pending is None ==> slot@.pending is None,
        slot.pending is Some ==> slot@.pending == Some((slot.pending->0)@),
        AfterRender::Render(source)@ == Next::Render(source@),
        AfterRender::Clean@ == Next::Clean,
        AfterRender::Rest@ == Next::Rest,
{
}

/// A save while a render runs puts its source in the queue, in the place of any other, and begins
/// none. Any other save begins a render. Either way nothing else changes.
pub proof fn saves_queue_or_begin(
    renders: Map<Seq<char>, Slot>,
    uri: Seq<char>,
    source: Seq<char>,
    other: Seq<char>,
)
    requires
        other != uri,
    ensures
        ({
            let after = after_save(renders, uri, source);
            &&& after.contains_key(uri) && after[uri].rendering
            &&& renders.contains_key(uri) && renders[uri].rendering ==> after[uri].pending == Some(
                source,
            ) && after[uri].closing == renders[uri].closing
            &&& renders.contains_key(uri) && !renders[uri].rendering ==> after[uri].pending
                == renders[uri].pending && after[uri].closing == renders[uri].closing
            &&& !renders.contains_key(uri) ==> after[uri].pending is None && !after[uri].closing
            &&& after.contains_key(other) == renders.contains_key(other)
            &&& renders.contains_key(other) ==> after[other] == renders[other]
        }),
{
}

/// A thread whose render is done cleans up where its document was closed, else renders what is in
/// the queue, which is then empty, and else rests. Nothing else changes.
pub proof fn finished_threads_take_the_queue(
    renders: Map<Seq<char>, Slot>,
    uri: Seq<char>,
    other: Seq<char>,
)
    requires
        other != uri,
        renders.contains_key(uri),
    ensures
        ({
            let slot = renders[uri];
            let after = after_render(renders, uri);
            &&& slot.closing ==> next(renders, uri) == Next::Clean && !after.contains_key(uri)
            &&& !slot.closing && slot.pending is Some ==> next(renders, uri) == Next::Render(
                slot.pending->0,
            ) && after.contains_key(uri) && after[uri] == (Slot {
                rendering: slot.rendering,
                pending: None,
                closing: false,
            })
            &&& !slot.closing && slot.pending is None ==> next(renders, uri) == Next::Rest
                && after.contains_key(uri) && after[uri] == (Slot {
                rendering: false,
                pending: None,
                closing: false,
            })
            &&& after.contains_key(other) == renders.contains_key(other)
            &&& renders.contains_key(other) ==> after[other] == renders[other]
        }),
{
}

/// A thread that finds no slot rests, and leaves an idle one behind.
pub proof fn threads_without_a_slot_rest(renders: Map<Seq<char>, Slot>, uri: Seq<char>)
    requires
        !renders.contains_key(uri),
    ensures
        next(renders, uri) == Next::Rest,
        after_render(renders, uri) == renders.insert(
            uri,
            Slot { rendering: false, pending: None, closing: false },
        ),
        !slot_of(renders, uri).rendering,
        slot_of(renders, uri).pending is None,
        !slot_of(renders, uri).closing,
{
}

/// Closing a document while a render of it runs empties the queue and leaves the rest to the
/// thread. Otherwise nothing is left of its slot. Nothing else changes.
pub proof fn closing_defers_to_a_running_render(
    renders: Map<Seq<char>, Slot>,
    uri: Seq<char>,
    other: Seq<char>,
)
    requires
        other != uri,
    ensures
        ({
            let after = after_close(renders, uri);
            &&& renders.contains_key(uri) && renders[uri].rendering ==> after.contains_key(uri)
                && after[uri] == (Slot { rendering: true, pending: None, closing: true })
            &&& !(renders.contains_key(uri) && renders[uri].rendering) ==> !after.contains_key(uri)
            &&& after.contains_key(other) == renders.contains_key(other)
            &&& renders.contains_key(other) ==> after[other] == renders[other]
            &&& slot_of(renders, uri).rendering <==> renders.contains_key(uri)
                && renders[uri].rendering
        }),
{
}

} // verus!
