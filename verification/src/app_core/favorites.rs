//! Marks on media that live outside the history: favourites, links to the global
//! library, and playback proxies.

use crate::app_core::emitted;
use crate::app_core::identity_fault;
use crate::app_core::AppCore;
use crate::app_core::CoreView;
use crate::events::plainly;
use crate::events::CoreError;
use crate::events::CoreEvent;
use crate::events::CoreEventView;
use crate::events::CoreFault;
use crate::events::DeferredCoreEvents;
use crate::model::media_manifest_entry_views;
use crate::model::MediaManifest;
use crate::model::MediaManifestEntry;
use crate::model::MediaManifestEntryView;
use crate::model::MediaManifestView;
use crate::session::with_media;
use crate::text::contains_text;
use crate::text::copy_opt;
use crate::text::holds_text;
use crate::text::opt_text;
use crate::text::same_opt;
use crate::text::same_text;
use crate::text::texts;
use vstd::prelude::*;

verus! {

/// A mark to set on media.
pub enum MarkView {
    /// Whether the named media are favourites.
    Favorite { ids: Seq<Seq<char>>, favorite: bool },
    /// The global library's id of the named medium.
    Global { id: Seq<char>, library_id: Option<Seq<char>> },
    /// No medium has this id of the global library any more.
    Forget { library_id: Seq<char> },
}

/// A medium with the mark set.
pub open spec fn marked(e: MediaManifestEntryView, mark: MarkView) -> MediaManifestEntryView {
    match mark {
        MarkView::Favorite { ids, favorite } => if ids.contains(e.id) {
            MediaManifestEntryView { favorite, ..e }
        } else {
            e
        },
        MarkView::Global { id, library_id } => if e.id == id {
            MediaManifestEntryView { global_favorite_id: library_id, ..e }
        } else {
            e
        },
        MarkView::Forget { library_id } => if e.global_favorite_id == Some(library_id) {
            MediaManifestEntryView { global_favorite_id: None, ..e }
        } else {
            e
        },
    }
}

/// The media library with the mark set on all its media.
pub open spec fn all_marked(m: MediaManifestView, mark: MarkView) -> MediaManifestView {
    MediaManifestView {
        entries: m.entries.map_values(|e: MediaManifestEntryView| marked(e, mark)),
        ..m
    }
}

/// How many of the first `n` media the mark changes.
pub open spec fn changed_by(
    entries: Seq<MediaManifestEntryView>,
    mark: MarkView,
    n: int,
) -> int
    decreases n,
{
    if n <= 0 {
        0
    } else {
        changed_by(entries, mark, n - 1) + (if marked(entries[n - 1], mark) != entries[n - 1] {
            1int
        } else {
            0int
        })
    }
}

/// Nothing is counted exactly when nothing changes.
proof fn lemma_changed_by(entries: Seq<MediaManifestEntryView>, mark: MarkView, n: int)
    requires
        0 <= n <= entries.len(),
    ensures
        0 <= changed_by(entries, mark, n) <= n,
        changed_by(entries, mark, n) == 0 ==> forall|i: int|
            0 <= i < n ==> marked(#[trigger] entries[i], mark) == entries[i],
    decreases n,
{
    if n > 0 {
        lemma_changed_by(entries, mark, n - 1);
    }
}

/// Setting a mark on the media of a core, with nothing told of it yet. A refusal
/// leaves all as it was.
pub open spec fn mark_set(c: CoreView, mark: MarkView, refusal: Option<CoreFault>) -> (
    Result<int, CoreFault>,
    CoreView,
) {
    let m = c.editor.state.manifest;
    match refusal {
        Some(f) => (Err(f), c),
        None => (
            Ok(changed_by(m.entries, mark, m.entries.len() as int)),
            CoreView { editor: with_media(c.editor, all_marked(m, mark)), ..c },
        ),
    }
}

/// What observers are told of it: only a change.
pub open spec fn mark_events(c: CoreView, r: Result<int, CoreFault>) -> Seq<CoreEventView> {
    match r {
        Ok(n) if n > 0 => seq![
            CoreEventView::MediaChanged {
                project_epoch: c.project_epoch,
                count: c.editor.state.manifest.entries.len() as int,
            },
        ],
        _ => Seq::empty(),
    }
}

/// Setting a mark for a workflow that is bound to a project.
pub open spec fn mark_set_for_project(
    c: CoreView,
    epoch: u64,
    dir: Seq<char>,
    mark: MarkView,
    refusal: Option<CoreFault>,
) -> (Result<int, CoreFault>, CoreView) {
    match identity_fault(c, epoch, dir) {
        Some(f) => (Err(f), c),
        None => mark_set(c, mark, refusal),
    }
}

/// The view of an optional error.
pub open spec fn opt_fault(e: Option<CoreError>) -> Option<CoreFault> {
    match e {
        Some(x) => Some(x@),
        None => None,
    }
}

/// The view of a count.
pub open spec fn counted(r: Result<usize, CoreError>) -> Result<int, CoreFault> {
    match r {
        Ok(n) => Ok(n as int),
        Err(e) => Err(e@),
    }
}

/// A count read as whether anything changed.
pub open spec fn any_changed(r: Result<int, CoreFault>) -> Result<bool, CoreFault> {
    match r {
        Ok(n) => Ok(n > 0),
        Err(f) => Err(f),
    }
}

/// A mark to set on media.
#[derive(Debug)]
pub enum Mark {
    Favorite { ids: Vec<String>, favorite: bool },
    Global { id: String, library_id: Option<String> },
    Forget { library_id: String },
}

impl View for Mark {
    type V = MarkView;

    open spec fn view(&self) -> MarkView {
        match self {
            Mark::Favorite { ids, favorite } => MarkView::Favorite {
                ids: texts(ids@),
                favorite: *favorite,
            },
            Mark::Global { id, library_id } => MarkView::Global {
                id: id@,
                library_id: opt_text(*library_id),
            },
            Mark::Forget { library_id } => MarkView::Forget { library_id: library_id@ },
        }
    }
}

fn mark_entry(entry: &mut MediaManifestEntry, mark: &Mark) -> (changed: bool)
    ensures
        final(entry)@ == marked(old(entry)@, mark@),
        changed == (marked(old(entry)@, mark@) != old(entry)@),
{
    match mark {
        Mark::Favorite { ids, favorite } => {
            assert(holds_text(ids@, entry.id@) == texts(ids@).contains(entry.id@)) by {
                if holds_text(ids@, entry.id@) {
                    let k = choose|k: int| 0 <= k < ids@.len() && ids@[k]@ == entry.id@;
                    assert(texts(ids@)[k] == entry.id@);
                }
            }
            if contains_text(ids, entry.id.as_str()) {
                let changed = entry.favorite != *favorite;
                entry.favorite = *favorite;
                changed
            } else {
                false
            }
        },
        Mark::Global { id, library_id } => {
            if same_text(entry.id.as_str(), id.as_str()) {
                let changed = !same_opt(&entry.global_favorite_id, library_id);
                entry.global_favorite_id = copy_opt(library_id);
                changed
            } else {
                false
            }
        },
        Mark::Forget { library_id } => {
            let held = match &entry.global_favorite_id {
                Some(held) => same_text(held.as_str(), library_id.as_str()),
                None => false,
            };
            if held {
                entry.global_favorite_id = None;
            }
            held
        },
    }
}

pub fn mark_all(manifest: &mut MediaManifest, mark: &Mark) -> (changed: usize)
    ensures
        final(manifest)@ == all_marked(old(manifest)@, mark@),
        changed == changed_by(
            old(manifest)@.entries,
            mark@,
            old(manifest)@.entries.len() as int,
        ),
        final(manifest).entries@.len() == old(manifest).entries@.len(),
{
    let ghost first = manifest@;
    let ghost start = manifest.entries@;
    let mut changed: usize = 0;
    let mut i: usize = 0;
    while i < manifest.entries.len()
        invariant
            i <= manifest.entries@.len(),
            manifest.entries@.len() == start.len(),
            first.entries == media_manifest_entry_views(start),
            manifest@.folders == first.folders,
            changed == changed_by(first.entries, mark@, i as int),
            changed <= i,
            forall|k: int|
                0 <= k < start.len() ==> (#[trigger] manifest.entries@[k])@ == (if k < i {
                    marked(first.entries[k], mark@)
                } else {
                    first.entries[k]
                }),
        decreases manifest.entries@.len() - i,
    {
        let ghost entry = manifest.entries@[i as int]@;
        if mark_entry(&mut manifest.entries[i], mark) {
            changed += 1;
        }
        i += 1;
    }
    assert(manifest@.entries =~= all_marked(first, mark@).entries);
    changed
}

impl AppCore {
    fn set_mark(&mut self, mark: &Mark, refusal: Option<CoreError>) -> (r: Result<usize, CoreError>)
        ensures
            (counted(r), final(self)@) == mark_set(old(self)@, mark@, opt_fault(refusal)),
    {
        match refusal {
            Some(e) => Err(e),
            None => Ok(mark_all(&mut self.editor.state.manifest, mark)),
        }
    }

    fn tell_mark(&mut self, mark: &Mark, refusal: Option<CoreError>) -> (r: Result<
        usize,
        CoreError,
    >)
        ensures
            ({
                let (done, next) = mark_set(old(self)@, mark@, opt_fault(refusal));
                counted(r) == done && final(self)@ == emitted(next, mark_events(next, done))
            }),
    {
        let ghost before = self@.outbox;
        match self.set_mark(mark, refusal) {
            Ok(n) => {
                if n > 0 {
                    let project_epoch = self.project_epoch;
                    let count = self.editor.state.manifest.entries.len();
                    self.emit(CoreEvent::MediaChanged { project_epoch, count });
                } else {
                    assert(before + Seq::<CoreEventView>::empty() =~= before);
                }
                Ok(n)
            },
            Err(e) => {
                assert(before + Seq::<CoreEventView>::empty() =~= before);
                Err(e)
            },
        }
    }

    fn queue_mark(
        &mut self,
        expected_project_epoch: u64,
        expected_project_dir: &str,
        mark: &Mark,
        refusal: Option<CoreError>,
        events: &mut DeferredCoreEvents,
    ) -> (r: Result<usize, CoreError>)
        ensures
            ({
                let (done, next) = mark_set_for_project(
                    old(self)@,
                    expected_project_epoch,
                    expected_project_dir@,
                    mark@,
                    opt_fault(refusal),
                );
                &&& counted(r) == done
                &&& final(self)@ == next
                &&& final(events)@ == old(events)@ + mark_events(next, done)
            }),
    {
        let ghost queued = events@;
        assert(queued + Seq::<CoreEventView>::empty() =~= queued);
        match self.ensure_project_identity(expected_project_epoch, expected_project_dir) {
            Ok(()) => {},
            Err(e) => return Err(e),
        }
        match self.set_mark(mark, refusal) {
            Ok(n) => {
                if n > 0 {
                    let count = self.editor.state.manifest.entries.len();
                    events.push(
                        CoreEvent::MediaChanged { project_epoch: expected_project_epoch, count },
                    );
                    assert(events@ =~= queued + mark_events(self@, Ok::<int, CoreFault>(n as int)));
                }
                Ok(n)
            },
            Err(e) => Err(e),
        }
    }

    fn mark_for_project(
        &mut self,
        expected_project_epoch: u64,
        expected_project_dir: &str,
        mark: &Mark,
        refusal: Option<CoreError>,
    ) -> (r: Result<usize, CoreError>)
        ensures
            ({
                let (done, next) = mark_set_for_project(
                    old(self)@,
                    expected_project_epoch,
                    expected_project_dir@,
                    mark@,
                    opt_fault(refusal),
                );
                counted(r) == done && final(self)@ == emitted(next, mark_events(next, done))
            }),
    {
        let ghost before = self@.outbox;
        let mut events = DeferredCoreEvents::default();
        match self.queue_mark(
            expected_project_epoch,
            expected_project_dir,
            mark,
            refusal,
            &mut events,
        ) {
            Ok(n) => {
                let ghost told = mark_events(self@, Ok::<int, CoreFault>(n as int));
                assert(Seq::<CoreEventView>::empty() + told =~= told);
                self.emit_deferred(events);
                Ok(n)
            },
            Err(e) => {
                assert(before + Seq::<CoreEventView>::empty() =~= before);
                Err(e)
            },
        }
    }

    /// Marks media as favourites or not; tells how many changed. `refusal` is what
    /// the session says against it.
    pub fn set_media_favorite(
        &mut self,
        asset_ids: Vec<String>,
        favorite: bool,
        refusal: Option<CoreError>,
    ) -> (r: Result<usize, CoreError>)
        ensures
            ({
                let mark = MarkView::Favorite { ids: texts(asset_ids@), favorite };
                let (done, next) = mark_set(old(self)@, mark, opt_fault(refusal));
                counted(r) == done && final(self)@ == emitted(next, mark_events(next, done))
            }),
    {
        self.tell_mark(&Mark::Favorite { ids: asset_ids, favorite }, refusal)
    }

    /// Marks media as favourites or not, for a workflow bound to a project.
    pub fn set_media_favorite_for_project(
        &mut self,
        expected_project_epoch: u64,
        expected_project_dir: &str,
        asset_ids: Vec<String>,
        favorite: bool,
        refusal: Option<CoreError>,
    ) -> (r: Result<usize, CoreError>)
        ensures
            ({
                let mark = MarkView::Favorite { ids: texts(asset_ids@), favorite };
                let (done, next) = mark_set_for_project(
                    old(self)@,
                    expected_project_epoch,
                    expected_project_dir@,
                    mark,
                    opt_fault(refusal),
                );
                counted(r) == done && final(self)@ == emitted(next, mark_events(next, done))
            }),
    {
        self.mark_for_project(
            expected_project_epoch,
            expected_project_dir,
            &Mark::Favorite { ids: asset_ids, favorite },
            refusal,
        )
    }

    /// As above, with the events queued.
    pub fn set_media_favorite_for_project_deferred(
        &mut self,
        expected_project_epoch: u64,
        expected_project_dir: &str,
        asset_ids: Vec<String>,
        favorite: bool,
        refusal: Option<CoreError>,
        events: &mut DeferredCoreEvents,
    ) -> (r: Result<usize, CoreError>)
        ensures
            ({
                let mark = MarkView::Favorite { ids: texts(asset_ids@), favorite };
                let (done, next) = mark_set_for_project(
                    old(self)@,
                    expected_project_epoch,
                    expected_project_dir@,
                    mark,
                    opt_fault(refusal),
                );
                &&& counted(r) == done
                &&& final(self)@ == next
                &&& final(events)@ == old(events)@ + mark_events(next, done)
            }),
    {
        self.queue_mark(
            expected_project_epoch,
            expected_project_dir,
            &Mark::Favorite { ids: asset_ids, favorite },
            refusal,
            events,
        )
    }

    /// Sets or clears the global library's id of a medium; tells whether it changed.
    /// `refusal` is what the session says against it.
    pub fn set_media_global_favorite(
        &mut self,
        asset_id: String,
        library_id: Option<String>,
        refusal: Option<CoreError>,
    ) -> (r: Result<bool, CoreError>)
        ensures
            ({
                let mark = MarkView::Global { id: asset_id@, library_id: opt_text(library_id) };
                let (done, next) = mark_set(old(self)@, mark, opt_fault(refusal));
                plainly(r) == any_changed(done) && final(self)@ == emitted(
                    next,
                    mark_events(next, done),
                )
            }),
    {
        match self.tell_mark(&Mark::Global { id: asset_id, library_id }, refusal) {
            Ok(n) => Ok(n > 0),
            Err(e) => Err(e),
        }
    }

    /// Sets or clears the global library's id of a medium, for a workflow bound to a
    /// project.
    pub fn set_media_global_favorite_for_project(
        &mut self,
        expected_project_epoch: u64,
        expected_project_dir: &str,
        asset_id: String,
        library_id: Option<String>,
        refusal: Option<CoreError>,
    ) -> (r: Result<bool, CoreError>)
        ensures
            ({
                let mark = MarkView::Global { id: asset_id@, library_id: opt_text(library_id) };
                let (done, next) = mark_set_for_project(
                    old(self)@,
                    expected_project_epoch,
                    expected_project_dir@,
                    mark,
                    opt_fault(refusal),
                );
                plainly(r) == any_changed(done) && final(self)@ == emitted(
                    next,
                    mark_events(next, done),
                )
            }),
    {
        match self.mark_for_project(
            expected_project_epoch,
            expected_project_dir,
            &Mark::Global { id: asset_id, library_id },
            refusal,
        ) {
            Ok(n) => Ok(n > 0),
            Err(e) => Err(e),
        }
    }

    /// As above, with the events queued.
    pub fn set_media_global_favorite_for_project_deferred(
        &mut self,
        expected_project_epoch: u64,
        expected_project_dir: &str,
        asset_id: String,
        library_id: Option<String>,
        refusal: Option<CoreError>,
        events: &mut DeferredCoreEvents,
    ) -> (r: Result<bool, CoreError>)
        ensures
            ({
                let mark = MarkView::Global { id: asset_id@, library_id: opt_text(library_id) };
                let (done, next) = mark_set_for_project(
                    old(self)@,
                    expected_project_epoch,
                    expected_project_dir@,
                    mark,
                    opt_fault(refusal),
                );
                &&& plainly(r) == any_changed(done)
                &&& final(self)@ == next
                &&& final(events)@ == old(events)@ + mark_events(next, done)
            }),
    {
        match self.queue_mark(
            expected_project_epoch,
            expected_project_dir,
            &Mark::Global { id: asset_id, library_id },
            refusal,
            events,
        ) {
            Ok(n) => Ok(n > 0),
            Err(e) => Err(e),
        }
    }

    /// Takes an id of the global library off all media; tells how many had it.
    pub fn clear_media_global_favorite_id(
        &mut self,
        library_id: String,
        refusal: Option<CoreError>,
    ) -> (r: Result<usize, CoreError>)
        ensures
            ({
                let mark = MarkView::Forget { library_id: library_id@ };
                let (done, next) = mark_set(old(self)@, mark, opt_fault(refusal));
                counted(r) == done && final(self)@ == emitted(next, mark_events(next, done))
            }),
    {
        self.tell_mark(&Mark::Forget { library_id }, refusal)
    }

    /// Takes an id of the global library off all media, for a workflow bound to a
    /// project.
    pub fn clear_media_global_favorite_id_for_project(
        &mut self,
        expected_project_epoch: u64,
        expected_project_dir: &str,
        library_id: String,
        refusal: Option<CoreError>,
    ) -> (r: Result<usize, CoreError>)
        ensures
            ({
                let mark = MarkView::Forget { library_id: library_id@ };
                let (done, next) = mark_set_for_project(
                    old(self)@,
                    expected_project_epoch,
                    expected_project_dir@,
                    mark,
                    opt_fault(refusal),
                );
                counted(r) == done && final(self)@ == emitted(next, mark_events(next, done))
            }),
    {
        self.mark_for_project(
            expected_project_epoch,
            expected_project_dir,
            &Mark::Forget { library_id },
            refusal,
        )
    }

    /// As above, with the events queued.
    pub fn clear_media_global_favorite_id_for_project_deferred(
        &mut self,
        expected_project_epoch: u64,
        expected_project_dir: &str,
        library_id: String,
        refusal: Option<CoreError>,
        events: &mut DeferredCoreEvents,
    ) -> (r: Result<usize, CoreError>)
        ensures
            ({
                let mark = MarkView::Forget { library_id: library_id@ };
                let (done, next) = mark_set_for_project(
                    old(self)@,
                    expected_project_epoch,
                    expected_project_dir@,
                    mark,
                    opt_fault(refusal),
                );
                &&& counted(r) == done
                &&& final(self)@ == next
                &&& final(events)@ == old(events)@ + mark_events(next, done)
            }),
    {
        self.queue_mark(
            expected_project_epoch,
            expected_project_dir,
            &Mark::Forget { library_id },
            refusal,
            events,
        )
    }
}

/// Setting the same mark again changes nothing, and is not told.
pub proof fn law_marks_are_told_once(c: CoreView, mark: MarkView)
    ensures
        ({
            let (_, next) = mark_set(c, mark, None);
            let (again, last) = mark_set(next, mark, None);
            &&& again == Ok::<int, CoreFault>(0)
            &&& last == next
            &&& mark_events(last, again) == Seq::<CoreEventView>::empty()
        }),
{
    let (_, next) = mark_set(c, mark, None);
    let entries = next.editor.state.manifest.entries;
    assert forall|i: int| 0 <= i < entries.len() implies marked(#[trigger] entries[i], mark)
        == entries[i] by {
        let e = c.editor.state.manifest.entries[i];
        assert(entries[i] == marked(e, mark));
        if let MarkView::Global { id, library_id } = mark {
            assert(marked(e, mark).id == e.id);
        }
    }
    lemma_unmarked(entries, mark, entries.len() as int);
    assert(all_marked(next.editor.state.manifest, mark).entries =~= entries);
}

proof fn lemma_unmarked(entries: Seq<MediaManifestEntryView>, mark: MarkView, n: int)
    requires
        0 <= n <= entries.len(),
        forall|i: int| 0 <= i < entries.len() ==> marked(#[trigger] entries[i], mark) == entries[i],
    ensures
        changed_by(entries, mark, n) == 0,
    decreases n,
{
    if n > 0 {
        lemma_unmarked(entries, mark, n - 1);
    }
}

/// What is told agrees with what changed: a mark that changes a medium is told, and
/// one that changes none is not.
pub proof fn law_marks_are_told_truly(c: CoreView, mark: MarkView)
    ensures
        ({
            let (done, next) = mark_set(c, mark, None);
            (mark_events(next, done).len() > 0) == (next.editor != c.editor)
        }),
{
    let m = c.editor.state.manifest;
    let (done, next) = mark_set(c, mark, None);
    lemma_changed_by(m.entries, mark, m.entries.len() as int);
    if done == Ok::<int, CoreFault>(0) {
        assert(all_marked(m, mark).entries =~= m.entries);
        assert(all_marked(m, mark) =~= m);
        assert(next.editor =~= c.editor);
    } else {
        if next.editor == c.editor {
            assert(next.editor.state.manifest.entries == m.entries);
            assert forall|i: int| 0 <= i < m.entries.len() implies marked(
                #[trigger] m.entries[i],
                mark,
            ) == m.entries[i] by {
                assert(all_marked(m, mark).entries[i] == marked(m.entries[i], mark));
            }
            lemma_unmarked(m.entries, mark, m.entries.len() as int);
        }
    }
}

} // verus!
