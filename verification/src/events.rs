//! What the core tells its observers, and why it turns a request down.

use crate::edit::fault_text;
use crate::edit::EditError;
use crate::edit::Fault;
use vstd::prelude::*;
use vstd::string::StringExecFns;

verus! {

/// Why the core turned a request down.
#[derive(Debug)]
pub enum CoreError {
    /// The edit was not possible.
    Edit(EditError),
    /// Something is wrong with media or with the project it belongs to.
    Media(String),
    /// The request is not supported.
    Unsupported(String),
    /// Reading or writing the project failed.
    Storage(String),
    /// The project is not the one that the request was made for.
    StaleProject,
}

/// The view of a [`CoreError`].
pub enum CoreFault {
    Edit(Fault),
    Media(Seq<char>),
    Unsupported(Seq<char>),
    Storage(Seq<char>),
    StaleProject,
}

impl View for CoreError {
    type V = CoreFault;

    open spec fn view(&self) -> CoreFault {
        match self {
            CoreError::Edit(e) => CoreFault::Edit(e@),
            CoreError::Media(m) => CoreFault::Media(m@),
            CoreError::Unsupported(m) => CoreFault::Unsupported(m@),
            CoreError::Storage(m) => CoreFault::Storage(m@),
            CoreError::StaleProject => CoreFault::StaleProject,
        }
    }
}

/// The message of a fault.
pub open spec fn core_fault_text(f: CoreFault) -> Seq<char> {
    match f {
        CoreFault::Edit(e) => fault_text(e),
        CoreFault::Media(m) => m,
        CoreFault::Unsupported(m) => m,
        CoreFault::Storage(m) => m,
        CoreFault::StaleProject => "project changed while preparing a deferred edit"@,
    }
}

impl CoreError {
    /// The message to show.
    pub fn message(&self) -> (r: String)
        ensures
            r@ == core_fault_text(self@),
    {
        match self {
            CoreError::Edit(e) => e.message(),
            CoreError::Media(m) => m.clone(),
            CoreError::Unsupported(m) => m.clone(),
            CoreError::Storage(m) => m.clone(),
            CoreError::StaleProject => String::from_str(
                "project changed while preparing a deferred edit",
            ),
        }
    }
}

/// Something wrong with media, with a fixed message.
pub fn media_error(message: &str) -> (r: CoreError)
    ensures
        r@ == CoreFault::Media(message@),
{
    CoreError::Media(String::from_str(message))
}

/// The view of a result whose value is a plain one.
pub open spec fn plainly<T>(r: Result<T, CoreError>) -> Result<T, CoreFault> {
    match r {
        Ok(x) => Ok(x),
        Err(e) => Err(e@),
    }
}

/// The view of a result whose value has a view.
pub open spec fn viewed<T: View>(r: Result<T, CoreError>) -> Result<T::V, CoreFault> {
    match r {
        Ok(x) => Ok(x@),
        Err(e) => Err(e@),
    }
}

/// What the core tells its observers.
#[derive(Debug)]
pub enum CoreEvent {
    /// The document moved to another version.
    TimelineChanged { project_epoch: u64, version: u64 },
    /// The media library changed.
    MediaChanged { project_epoch: u64, count: usize },
    /// Another project took the place of the current one.
    ProjectOpened { path: String, project_epoch: u64, version: u64 },
    /// The project was written.
    ProjectSaved { path: String, project_epoch: u64 },
}

/// The view of a [`CoreEvent`].
pub enum CoreEventView {
    TimelineChanged { project_epoch: u64, version: u64 },
    MediaChanged { project_epoch: u64, count: int },
    ProjectOpened { path: Seq<char>, project_epoch: u64, version: u64 },
    ProjectSaved { path: Seq<char>, project_epoch: u64 },
}

impl View for CoreEvent {
    type V = CoreEventView;

    open spec fn view(&self) -> CoreEventView {
        match self {
            CoreEvent::TimelineChanged { project_epoch, version } => {
                CoreEventView::TimelineChanged {
                    project_epoch: *project_epoch,
                    version: *version,
                }
            },
            CoreEvent::MediaChanged { project_epoch, count } => CoreEventView::MediaChanged {
                project_epoch: *project_epoch,
                count: *count as int,
            },
            CoreEvent::ProjectOpened { path, project_epoch, version } => {
                CoreEventView::ProjectOpened {
                    path: path@,
                    project_epoch: *project_epoch,
                    version: *version,
                }
            },
            CoreEvent::ProjectSaved { path, project_epoch } => CoreEventView::ProjectSaved {
                path: path@,
                project_epoch: *project_epoch,
            },
        }
    }
}

impl CoreEvent {
    /// A copy of the event.
    pub fn copy(&self) -> (r: CoreEvent)
        ensures
            r@ == self@,
    {
        match self {
            CoreEvent::TimelineChanged { project_epoch, version } => CoreEvent::TimelineChanged {
                project_epoch: *project_epoch,
                version: *version,
            },
            CoreEvent::MediaChanged { project_epoch, count } => CoreEvent::MediaChanged {
                project_epoch: *project_epoch,
                count: *count,
            },
            CoreEvent::ProjectOpened { path, project_epoch, version } => {
                CoreEvent::ProjectOpened {
                    path: path.clone(),
                    project_epoch: *project_epoch,
                    version: *version,
                }
            },
            CoreEvent::ProjectSaved { path, project_epoch } => CoreEvent::ProjectSaved {
                path: path.clone(),
                project_epoch: *project_epoch,
            },
        }
    }
}

/// The views of a list of [`CoreEvent`].
pub open spec fn event_views(v: Seq<CoreEvent>) -> Seq<CoreEventView> {
    v.map_values(|x: CoreEvent| x@)
}

/// A copy of a list of events.
pub fn copy_events(events: &Vec<CoreEvent>) -> (r: Vec<CoreEvent>)
    ensures
        event_views(r@) == event_views(events@),
{
    let mut out: Vec<CoreEvent> = Vec::new();
    let mut i: usize = 0;
    while i < events.len()
        invariant
            i <= events@.len(),
            event_views(out@) == event_views(events@.take(i as int)),
        decreases events@.len() - i,
    {
        push_event(&mut out, events[i].copy());
        assert(event_views(events@.take(i as int + 1)) =~= event_views(
            events@.take(i as int),
        ).push(events@[i as int]@));
        i += 1;
    }
    assert(events@.take(i as int) =~= events@);
    out
}

/// Appends an event.
pub fn push_event(events: &mut Vec<CoreEvent>, event: CoreEvent)
    ensures
        event_views(final(events)@) == event_views(old(events)@).push(event@),
{
    let ghost before = events@;
    events.push(event);
    assert(event_views(events@) =~= event_views(before).push(event@));
}

/// Events of a workflow that holds the project's identity: they are queued while it
/// is held and emitted only after its release.
#[derive(Debug)]
pub struct DeferredCoreEvents {
    pub events: Vec<CoreEvent>,
}

impl View for DeferredCoreEvents {
    type V = Seq<CoreEventView>;

    open spec fn view(&self) -> Seq<CoreEventView> {
        event_views(self.events@)
    }
}

impl Default for DeferredCoreEvents {
    fn default() -> (r: DeferredCoreEvents)
        ensures
            r@ == Seq::<CoreEventView>::empty(),
    {
        let r = DeferredCoreEvents { events: Vec::new() };
        assert(r@ =~= Seq::<CoreEventView>::empty());
        r
    }
}

impl DeferredCoreEvents {
    /// Drops what is queued.
    pub fn clear(&mut self)
        ensures
            final(self)@ == Seq::<CoreEventView>::empty(),
    {
        self.events = Vec::new();
        assert(self@ =~= Seq::<CoreEventView>::empty());
    }

    /// Queues an event.
    pub fn push(&mut self, event: CoreEvent)
        ensures
            final(self)@ == old(self)@.push(event@),
    {
        push_event(&mut self.events, event);
    }
}

} // verus!
