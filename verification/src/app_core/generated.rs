//! Registering a rendered or generated file and putting it on the timeline, as one
//! edit that is written before it is told.

use crate::app_core::emitted;
use crate::app_core::identity_fault;
use crate::app_core::AppCore;
use crate::app_core::CoreView;
use crate::apply::dispatched;
use crate::command::EditCommand;
use crate::command::Outside;
use crate::commands::registration::register_media_and_add_clip_spec;
use crate::commands::registration::register_media_and_swap_clip_spec;
use crate::commands::registration::registering_ids;
use crate::edit::EditResult;
use crate::edit::EditResultView;
use crate::edit::Fault;
use crate::entries::ClipEntry;
use crate::entries::ClipEntryView;
use crate::events::media_error;
use crate::events::viewed;
use crate::events::CoreError;
use crate::events::CoreEvent;
use crate::events::CoreEventView;
use crate::events::CoreFault;
use crate::events::DeferredCoreEvents;
use crate::frames::timeline_fault;
use crate::ids::ids_after;
use crate::ids::law_ids_are_distinct;
use crate::ids::lemma_ids_after;
use crate::ids::nth_id;
use crate::ids::COUNTER_SPAN;
use crate::ids::CoreIdGen;
use crate::ids::IdsView;
use crate::locate::find_media;
use crate::locate::media_index;
use crate::locate::track_index;
use crate::model::ClipType;
use crate::model::MediaManifest;
use crate::model::MediaManifestEntry;
use crate::model::MediaManifestEntryView;
use crate::model::Setting;
use crate::paths::directly_in;
use crate::paths::is_directly_in;
use crate::session::ProbedMedia;
use crate::session::SessionView;
use crate::state::top_labelled;
use crate::state::undone;
use crate::state::StateView;
use crate::text::cat2;
use crate::text::copy_opt;
use crate::text::nat_text;
use crate::text::opt_text;
use crate::text::usize_to_text;
use vstd::prelude::*;
use vstd::string::StringExecFns;

verus! {

/// Where a rendered file goes on the timeline.
#[derive(Debug)]
pub enum MotionPlacement {
    /// On a track, or on a fresh one.
    Add { start_frame: i32, duration_frames: i32, track_index: Option<usize> },
    /// In the place of what a clip shows.
    Replace { clip_id: String },
    /// In the place of what a clip shows; the result of the clip's masks is in the
    /// file already, so they go.
    ReplaceAndClearMasks { clip_id: String },
}

/// The view of a [`MotionPlacement`].
pub enum PlacementView {
    Add { start_frame: i32, duration_frames: i32, track_index: Option<usize> },
    Replace { clip_id: Seq<char>, clear_masks: bool },
}

impl View for MotionPlacement {
    type V = PlacementView;

    open spec fn view(&self) -> PlacementView {
        match self {
            MotionPlacement::Add { start_frame, duration_frames, track_index } => {
                PlacementView::Add {
                    start_frame: *start_frame,
                    duration_frames: *duration_frames,
                    track_index: *track_index,
                }
            },
            MotionPlacement::Replace { clip_id } => PlacementView::Replace {
                clip_id: clip_id@,
                clear_masks: false,
            },
            MotionPlacement::ReplaceAndClearMasks { clip_id } => PlacementView::Replace {
                clip_id: clip_id@,
                clear_masks: true,
            },
        }
    }
}

/// A file that was rendered or generated.
#[derive(Debug)]
pub struct GeneratedFile {
    pub path: String,
    /// The path in the form in which the media library keeps it.
    pub source: String,
    pub name: String,
    pub kind: ClipType,
    pub probe: ProbedMedia,
    /// What the file was generated from.
    pub provenance: Setting,
}

/// A registered file with the edit that put it on the timeline.
#[derive(Debug)]
pub struct MotionMediaCommit {
    pub media: MediaManifestEntry,
    pub edit: EditResult,
}

/// The view of a [`MotionMediaCommit`].
pub struct MotionCommitView {
    pub media: MediaManifestEntryView,
    pub edit: EditResultView,
}

impl View for MotionMediaCommit {
    type V = MotionCommitView;

    open spec fn view(&self) -> MotionCommitView {
        MotionCommitView { media: self.media@, edit: self.edit@ }
    }
}

/// How many ids have to be minted until one, from the `k`-th on, is no medium's.
pub open spec fn first_free(ids: IdsView, entries: Seq<MediaManifestEntryView>, k: int) -> int
    decreases entries.len() + 1 - k,
{
    if k > entries.len() || media_index(entries, nth_id(ids, k), 0) is None {
        k
    } else {
        first_free(ids, entries, k + 1)
    }
}

/// Among as many ids as there are media, and one more, one is free.
proof fn lemma_some_id_is_free(ids: IdsView, entries: Seq<MediaManifestEntryView>)
    requires
        entries.len() + 1 <= COUNTER_SPAN,
    ensures
        exists|k: int|
            1 <= k <= entries.len() + 1 && media_index(entries, #[trigger] nth_id(ids, k), 0)
                is None,
{
    let n = entries.len();
    let used = Seq::new(n, |i: int| entries[i].id);
    let tried = Seq::new(n + 1, |i: int| nth_id(ids, i + 1));
    if forall|k: int|
        1 <= k <= n + 1 ==> media_index(entries, #[trigger] nth_id(ids, k), 0) is Some {
        assert forall|i: int, j: int| 0 <= i < j < tried.len() implies tried[i] != tried[j] by {
            law_ids_are_distinct(ids, i + 1, j + 1);
        }
        assert(tried.no_duplicates());
        tried.unique_seq_to_set();
        used.lemma_cardinality_of_set();
        assert(tried.to_set().subset_of(used.to_set())) by {
            assert forall|x: Seq<char>| tried.to_set().contains(x) implies used.to_set().contains(
                x,
            ) by {
                let i = choose|i: int| 0 <= i < tried.len() && tried[i] == x;
                assert(media_index(entries, nth_id(ids, i + 1), 0) is Some);
                lemma_index_names(entries, x, 0);
                let at = media_index(entries, x, 0)->0;
                assert(used[at] == x);
            }
        }
        vstd::seq_lib::seq_to_set_is_finite(used);
        vstd::set_lib::lemma_len_subset(tried.to_set(), used.to_set());
    }
}

proof fn lemma_index_names(entries: Seq<MediaManifestEntryView>, id: Seq<char>, from: int)
    requires
        0 <= from,
    ensures
        media_index(entries, id, from) matches Some(i) ==> from <= i < entries.len()
            && entries[i].id == id,
    decreases entries.len() - from,
{
    if from < entries.len() && entries[from].id != id {
        lemma_index_names(entries, id, from + 1);
    }
}

/// The first free id is free.
proof fn lemma_first_free(ids: IdsView, entries: Seq<MediaManifestEntryView>, k: int)
    requires
        1 <= k <= entries.len() + 1,
        entries.len() + 1 <= COUNTER_SPAN,
        forall|j: int|
            1 <= j < k ==> media_index(entries, #[trigger] nth_id(ids, j), 0) is Some,
    ensures
        k <= first_free(ids, entries, k) <= entries.len() + 1,
        media_index(entries, nth_id(ids, first_free(ids, entries, k)), 0) is None,
    decreases entries.len() + 1 - k,
{
    if media_index(entries, nth_id(ids, k), 0) is Some {
        if k == entries.len() + 1 {
            lemma_some_id_is_free(ids, entries);
            let free = choose|j: int|
                1 <= j <= entries.len() + 1 && media_index(entries, #[trigger] nth_id(ids, j), 0)
                    is None;
            assert(media_index(entries, nth_id(ids, free), 0) is Some);
        } else {
            lemma_first_free(ids, entries, k + 1);
        }
    }
}

/// The id that a registered file gets is no other medium's.
pub proof fn law_registered_id_is_free(ids: IdsView, entries: Seq<MediaManifestEntryView>)
    requires
        entries.len() + 1 <= COUNTER_SPAN,
    ensures
        media_index(entries, nth_id(ids, first_free(ids, entries, 1)), 0) is None,
{
    lemma_first_free(ids, entries, 1);
}

fn mint_free_id(ids: &mut CoreIdGen, manifest: &MediaManifest) -> (r: String)
    ensures
        ({
            let k = first_free(old(ids)@, manifest@.entries, 1);
            r@ == nth_id(old(ids)@, k) && final(ids)@ == ids_after(old(ids)@, k)
        }),
{
    let ghost first = ids@;
    let ghost entries = manifest@.entries;
    let ghost mut k: int = 0;
    let count: usize = manifest.entries.len();
    proof {
        assert(entries.len() == count);
        lemma_ids_after(first, 0, 0);
    }
    loop
        invariant
            first == old(ids)@,
            entries == manifest@.entries,
            entries.len() + 1 <= COUNTER_SPAN,
            0 <= k <= entries.len(),
            ids@ == ids_after(first, k),
            first_free(first, entries, 1) == first_free(first, entries, k + 1),
            forall|j: int|
                1 <= j <= k ==> media_index(entries, #[trigger] nth_id(first, j), 0) is Some,
        decreases entries.len() + 1 - k,
    {
        proof {
            lemma_ids_after(first, k, 1);
            lemma_first_free(first, entries, k + 1);
        }
        let candidate = ids.next_id();
        if find_media(manifest, candidate.as_str()).is_none() {
            return candidate;
        }
        proof {
            k = k + 1;
            assert forall|j: int| 1 <= j <= k implies media_index(
                entries,
                #[trigger] nth_id(first, j),
                0,
            ) is Some by {}
        }
    }
}

/// The medium that a generated file becomes.
pub open spec fn generated_media(f: GeneratedFile, id: Seq<char>) -> MediaManifestEntryView {
    MediaManifestEntryView {
        id,
        name: f.name@,
        kind: f.kind,
        source: f.source@,
        duration: f.probe.duration_secs,
        generation_input: Some(f.provenance@),
        source_width: f.probe.width,
        source_height: f.probe.height,
        source_fps: f.probe.fps,
        has_audio: Some(f.probe.has_audio),
        color: opt_text(f.probe.color),
        proxy: None,
        folder_id: None,
        favorite: false,
        global_favorite_id: None,
        cached_remote_url: None,
        cached_remote_url_expires_at: None,
    }
}

/// The clip that a generated file becomes on a track.
pub open spec fn generated_clip(
    f: GeneratedFile,
    id: Seq<char>,
    start_frame: i32,
    duration_frames: i32,
    track_index: Option<usize>,
) -> ClipEntryView {
    ClipEntryView {
        media_ref: id,
        media_type: f.kind,
        source_clip_type: f.kind,
        track_index: match track_index {
            Some(i) => i,
            None => 0,
        },
        start_frame,
        duration_frames,
        trim_start_frame: None,
        trim_end_frame: None,
        has_audio: f.probe.has_audio,
        add_linked_audio: false,
        transform: None,
    }
}

/// The edit that registers a generated file and puts it on the timeline.
pub open spec fn placed_on(
    s: StateView,
    f: GeneratedFile,
    id: Seq<char>,
    placement: PlacementView,
    ids: IdsView,
    o: Outside,
) -> (Result<EditResultView, Fault>, StateView) {
    match timeline_fault(s.timeline, "timeline"@) {
        Some(m) => (Err(Fault::Invalid(m)), s),
        None => match placement {
            PlacementView::Add { start_frame, duration_frames, track_index } => {
                register_media_and_add_clip_spec(
                    s,
                    generated_media(f, id),
                    generated_clip(f, id, start_frame, duration_frames, track_index),
                    track_index is None,
                    ids,
                    o.placed@,
                    opt_text(o.registry_fault),
                )
            },
            PlacementView::Replace { clip_id, clear_masks } => register_media_and_swap_clip_spec(
                s,
                generated_media(f, id),
                clip_id,
                clear_masks,
                opt_text(o.registry_fault),
            ),
        },
    }
}

/// The id generator after that edit.
pub open spec fn generated_ids(
    s: StateView,
    f: GeneratedFile,
    id: Seq<char>,
    placement: PlacementView,
    ids: IdsView,
) -> IdsView {
    match placement {
        PlacementView::Add { start_frame, duration_frames, track_index } => registering_ids(
            s,
            generated_media(f, id),
            generated_clip(f, id, start_frame, duration_frames, track_index),
            track_index is None,
            ids,
        ),
        PlacementView::Replace { .. } => ids,
    }
}

/// What looking at a file found: whether it is a regular file and no link, or why it
/// could not be looked at.
pub open spec fn file_fault(path: Seq<char>, dir: Seq<char>, regular: Result<bool, Seq<char>>) -> Option<
    Seq<char>,
> {
    if !directly_in(path, dir, "media"@) {
        Some(
            "generated output must be one direct child of the active project media directory"@,
        )
    } else {
        match regular {
            Err(e) => Some("motion output metadata failed: "@ + e),
            Ok(true) => None,
            Ok(false) => Some("generated output must be a regular non-symlink file"@),
        }
    }
}

/// The complaint against committing a generated file, if any: about the file, about
/// the project, or that the project has moved on or must not be changed.
pub open spec fn commit_fault(
    c: CoreView,
    epoch: u64,
    version: u64,
    dir: Seq<char>,
    path: Seq<char>,
    regular: Result<bool, Seq<char>>,
) -> Option<CoreFault> {
    match file_fault(path, dir, regular) {
        Some(m) => Some(CoreFault::Media(m)),
        None => match identity_fault(c, epoch, dir) {
            Some(f) => Some(f),
            None => if c.editor.state.version != version {
                Some(
                    CoreFault::Media("project changed while preparing a generated-media edit"@),
                )
            } else {
                match c.editor.read_only {
                    Some(m) => Some(CoreFault::Unsupported(m)),
                    None => None,
                }
            },
        },
    }
}

/// Registering a generated file and putting it on the timeline, under the caller's label
/// in the report and in the history. `saved` is what writing the project came to; where
/// that or the edit failed, document, history and version are as they were.
pub open spec fn generated_committed(
    c: CoreView,
    epoch: u64,
    version: u64,
    dir: Seq<char>,
    f: GeneratedFile,
    regular: Result<bool, Seq<char>>,
    placement: PlacementView,
    action: Seq<char>,
    o: Outside,
    saved: Result<Seq<char>, CoreFault>,
) -> (Result<MotionCommitView, CoreFault>, CoreView) {
    match commit_fault(c, epoch, version, dir, f.path@, regular) {
        Some(fault) => (Err(fault), c),
        None => {
            let s = c.editor.state;
            let k = first_free(c.ids, s.manifest.entries, 1);
            let id = nth_id(c.ids, k);
            let moved_on = CoreView { ids: ids_after(c.ids, k), ..c };
            if !(f.kind is Audio || f.kind is Video) {
                (
                    Err(CoreFault::Media("generated placement supports audio or video"@)),
                    moved_on,
                )
            } else {
                let (r, next) = placed_on(s, f, id, placement, moved_on.ids, o);
                let placed = CoreView {
                    ids: generated_ids(s, f, id, placement, moved_on.ids),
                    ..c
                };
                match r {
                    Err(fault) => (Err(CoreFault::Edit(fault)), placed),
                    Ok(e) => match saved {
                        Err(fault) => (Err(fault), placed),
                        Ok(_) => (
                            Ok(
                                MotionCommitView {
                                    media: generated_media(f, id),
                                    edit: EditResultView {
                                        action_name: action,
                                        summary: nat_text(e.affected_clip_ids.len())
                                            + " generated media clip(s)"@,
                                        ..e
                                    },
                                },
                            ),
                            CoreView {
                                editor: SessionView {
                                    state: top_labelled(next, action),
                                    ..c.editor
                                },
                                ..placed
                            },
                        ),
                    },
                }
            }
        },
    }
}

/// What is told of it, once it has been written: the edit, the media library, the
/// save.
pub open spec fn commit_events(
    r: Result<MotionCommitView, CoreFault>,
    next: CoreView,
    saved: Result<Seq<char>, CoreFault>,
) -> Seq<CoreEventView> {
    match (r, saved) {
        (Ok(x), Ok(path)) => seq![
            CoreEventView::TimelineChanged {
                project_epoch: next.project_epoch,
                version: x.edit.timeline_version,
            },
            CoreEventView::MediaChanged {
                project_epoch: next.project_epoch,
                count: next.editor.state.manifest.entries.len() as int,
            },
            CoreEventView::ProjectSaved { path, project_epoch: next.project_epoch },
        ],
        _ => Seq::empty(),
    }
}

/// The view of what looking at a file found.
pub open spec fn looked(r: Result<bool, String>) -> Result<bool, Seq<char>> {
    match r {
        Ok(b) => Ok(b),
        Err(e) => Err(e@),
    }
}

fn check_file(path: &str, dir: &str, regular: &Result<bool, String>) -> (r: Result<(), CoreError>)
    ensures
        match r {
            Ok(_) => file_fault(path@, dir@, looked(*regular)) is None,
            Err(e) => file_fault(path@, dir@, looked(*regular)) matches Some(m) && e@
                == CoreFault::Media(m),
        },
{
    if !is_directly_in(path, dir, "media") {
        return Err(
            media_error(
                "generated output must be one direct child of the active project media directory",
            ),
        );
    }
    match regular {
        Err(e) => Err(CoreError::Media(cat2("motion output metadata failed: ", e.as_str()))),
        Ok(regular) => if *regular {
            Ok(())
        } else {
            Err(media_error("generated output must be a regular non-symlink file"))
        },
    }
}

fn make_media(f: &GeneratedFile, id: &str) -> (r: MediaManifestEntry)
    ensures
        r@ == generated_media(*f, id@),
{
    MediaManifestEntry {
        id: String::from_str(id),
        name: f.name.clone(),
        kind: f.kind,
        source: f.source.clone(),
        duration: f.probe.duration_secs,
        generation_input: Some(f.provenance.clone()),
        source_width: f.probe.width,
        source_height: f.probe.height,
        source_fps: f.probe.fps,
        has_audio: Some(f.probe.has_audio),
        color: copy_opt(&f.probe.color),
        proxy: None,
        folder_id: None,
        favorite: false,
        global_favorite_id: None,
        cached_remote_url: None,
        cached_remote_url_expires_at: None,
    }
}

/// The edit that registers a generated file and puts it on the timeline, as a command.
pub fn generated_command(
    f: &GeneratedFile,
    media: MediaManifestEntry,
    placement: &MotionPlacement,
) -> (r: EditCommand)
    ensures
        match placement@ {
            PlacementView::Add { start_frame, duration_frames, track_index } => {
                r matches EditCommand::RegisterMediaAndAddClip { media: m, entry, auto_track }
                    && m@ == media@ && entry@ == generated_clip(
                    *f,
                    media@.id,
                    start_frame,
                    duration_frames,
                    track_index,
                ) && auto_track == (track_index is None)
            },
            PlacementView::Replace { clip_id, clear_masks } => if clear_masks {
                r matches EditCommand::RegisterMediaAndSwapClipClearingMasks {
                    media: m,
                    clip_id: id,
                } && m@ == media@ && id@ == clip_id
            } else {
                r matches EditCommand::RegisterMediaAndSwapClip { media: m, clip_id: id } && m@
                    == media@ && id@ == clip_id
            },
        },
{
    match placement {
        MotionPlacement::Add { start_frame, duration_frames, track_index } => {
            let entry = ClipEntry {
                media_ref: media.id.clone(),
                media_type: f.kind,
                source_clip_type: f.kind,
                track_index: match track_index {
                    Some(i) => *i,
                    None => 0,
                },
                start_frame: *start_frame,
                duration_frames: *duration_frames,
                trim_start_frame: None,
                trim_end_frame: None,
                has_audio: f.probe.has_audio,
                add_linked_audio: false,
                transform: None,
            };
            let auto_track = track_index.is_none();
            EditCommand::RegisterMediaAndAddClip { media, entry, auto_track }
        },
        MotionPlacement::Replace { clip_id } => EditCommand::RegisterMediaAndSwapClip {
            media,
            clip_id: clip_id.clone(),
        },
        MotionPlacement::ReplaceAndClearMasks { clip_id } => {
            EditCommand::RegisterMediaAndSwapClipClearingMasks { media, clip_id: clip_id.clone() }
        },
    }
}

impl AppCore {
    fn place_generated(
        &mut self,
        f: &GeneratedFile,
        media: MediaManifestEntry,
        placement: MotionPlacement,
        outside: Outside,
    ) -> (r: Result<EditResult, CoreError>)
        requires
            old(self)@.editor.state.version < u64::MAX,
            media@ == generated_media(*f, media@.id),
        ensures
            ({
                let (done, next) = placed_on(
                    old(self)@.editor.state,
                    *f,
                    media@.id,
                    placement@,
                    old(self)@.ids,
                    outside,
                );
                &&& viewed(r) == (match done {
                    Ok(e) => Ok(e),
                    Err(fault) => Err(CoreFault::Edit(fault)),
                })
                &&& final(self)@ == (CoreView {
                    editor: SessionView { state: next, ..old(self)@.editor },
                    ids: generated_ids(
                        old(self)@.editor.state,
                        *f,
                        media@.id,
                        placement@,
                        old(self)@.ids,
                    ),
                    ..old(self)@
                })
            }),
    {
        proof {
            reveal(dispatched);
        }
        let command = generated_command(f, media, &placement);
        self.edit(command, outside)
    }

    /// The medium that a generated file would become, under the id that it would get, and
    /// the id generator as it would stand then. Nothing is minted.
    pub fn plan_generated(&self, file: &GeneratedFile) -> (r: (MediaManifestEntry, CoreIdGen))
        ensures
            ({
                let k = first_free(self@.ids, self@.editor.state.manifest.entries, 1);
                r.0@ == generated_media(*file, nth_id(self@.ids, k)) && r.1@ == ids_after(
                    self@.ids,
                    k,
                )
            }),
    {
        let mut ids = self.ids.copy();
        let id = mint_free_id(&mut ids, &self.editor.state.manifest);
        (make_media(file, id.as_str()), ids)
    }

    fn commit_generated(
        &mut self,
        expected_project_epoch: u64,
        expected_version: u64,
        expected_project_dir: &str,
        file: &GeneratedFile,
        regular: &Result<bool, String>,
        placement: MotionPlacement,
        action_name: &str,
        outside: Outside,
        saved: Result<String, CoreError>,
    ) -> (r: Result<(MotionMediaCommit, String), CoreError>)
        requires
            old(self)@.editor.state.version < u64::MAX,
        ensures
            ({
                let (done, next) = generated_committed(
                    old(self)@,
                    expected_project_epoch,
                    expected_version,
                    expected_project_dir@,
                    *file,
                    looked(*regular),
                    placement@,
                    action_name@,
                    outside,
                    viewed(saved),
                );
                &&& final(self)@ == next
                &&& match r {
                    Ok(x) => done == Ok::<MotionCommitView, CoreFault>(x.0@) && viewed(saved)
                        == Ok::<Seq<char>, CoreFault>(x.1@),
                    Err(e) => done == Err::<MotionCommitView, CoreFault>(e@),
                }
            }),
    {
        let ghost c = self@;
        match check_file(file.path.as_str(), expected_project_dir, regular) {
            Ok(()) => {},
            Err(e) => return Err(e),
        }
        match self.ensure_project_identity(expected_project_epoch, expected_project_dir) {
            Ok(()) => {},
            Err(e) => return Err(e),
        }
        if self.editor.state.version != expected_version {
            return Err(media_error("project changed while preparing a generated-media edit"));
        }
        match self.editor.ensure_mutable() {
            Ok(()) => {},
            Err(e) => return Err(e),
        }
        let before = self.editor.state.copy();
        let id = mint_free_id(&mut self.ids, &self.editor.state.manifest);
        let placeable = match file.kind {
            ClipType::Audio => true,
            ClipType::Video => true,
            _ => false,
        };
        if !placeable {
            return Err(media_error("generated placement supports audio or video"));
        }
        let media = make_media(file, id.as_str());
        let mut edit = match self.place_generated(file, media.copy(), placement, outside) {
            Ok(e) => e,
            Err(e) => {
                self.editor.state = before;
                return Err(e);
            },
        };
        let path = match saved {
            Ok(path) => path,
            Err(e) => {
                self.editor.state = before;
                return Err(e);
            },
        };
        let count = usize_to_text(edit.affected_clip_ids.len());
        assert(edit@.affected_clip_ids.len() == edit.affected_clip_ids@.len());
        self.editor.state.relabel_top(action_name);
        edit.action_name = String::from_str(action_name);
        edit.summary = cat2(count.as_str(), " generated media clip(s)");
        Ok((MotionMediaCommit { media, edit }, path))
    }

    /// Registers a generated file and puts it on the timeline, with the events
    /// queued. `regular` is what looking at the file found, `saved` what writing the
    /// project came to.
    pub fn commit_generated_media_for_project_deferred(
        &mut self,
        expected_project_epoch: u64,
        expected_version: u64,
        expected_project_dir: &str,
        file: &GeneratedFile,
        regular: &Result<bool, String>,
        placement: MotionPlacement,
        action_name: &str,
        outside: Outside,
        saved: Result<String, CoreError>,
        events: &mut DeferredCoreEvents,
    ) -> (r: Result<MotionMediaCommit, CoreError>)
        requires
            old(self)@.editor.state.version < u64::MAX,
        ensures
            ({
                let (done, next) = generated_committed(
                    old(self)@,
                    expected_project_epoch,
                    expected_version,
                    expected_project_dir@,
                    *file,
                    looked(*regular),
                    placement@,
                    action_name@,
                    outside,
                    viewed(saved),
                );
                &&& viewed(r) == done
                &&& final(self)@ == next
                &&& final(events)@ == old(events)@ + commit_events(done, next, viewed(saved))
            }),
    {
        let ghost queued = events@;
        assert(queued + Seq::<CoreEventView>::empty() =~= queued);
        match self.commit_generated(
            expected_project_epoch,
            expected_version,
            expected_project_dir,
            file,
            regular,
            placement,
            action_name,
            outside,
            saved,
        ) {
            Ok((commit, path)) => {
                let project_epoch = self.project_epoch;
                let count = self.editor.state.manifest.entries.len();
                events.push(
                    CoreEvent::TimelineChanged {
                        project_epoch,
                        version: commit.edit.timeline_version,
                    },
                );
                events.push(CoreEvent::MediaChanged { project_epoch, count });
                events.push(CoreEvent::ProjectSaved { path, project_epoch });
                assert(events@ =~= queued + commit_events(
                    Ok::<MotionCommitView, CoreFault>(commit@),
                    self@,
                    viewed(saved),
                ));
                Ok(commit)
            },
            Err(e) => Err(e),
        }
    }

    /// Registers a generated file, puts it on the timeline, and tells.
    pub fn commit_generated_media_for_project(
        &mut self,
        expected_project_epoch: u64,
        expected_version: u64,
        expected_project_dir: &str,
        file: &GeneratedFile,
        regular: &Result<bool, String>,
        placement: MotionPlacement,
        action_name: &str,
        outside: Outside,
        saved: Result<String, CoreError>,
    ) -> (r: Result<MotionMediaCommit, CoreError>)
        requires
            old(self)@.editor.state.version < u64::MAX,
        ensures
            ({
                let (done, next) = generated_committed(
                    old(self)@,
                    expected_project_epoch,
                    expected_version,
                    expected_project_dir@,
                    *file,
                    looked(*regular),
                    placement@,
                    action_name@,
                    outside,
                    viewed(saved),
                );
                &&& viewed(r) == done
                &&& final(self)@ == emitted(next, commit_events(done, next, viewed(saved)))
            }),
    {
        let mut events = DeferredCoreEvents::default();
        match self.commit_generated_media_for_project_deferred(
            expected_project_epoch,
            expected_version,
            expected_project_dir,
            file,
            regular,
            placement,
            action_name,
            outside,
            saved,
            &mut events,
        ) {
            Ok(commit) => {
                let ghost told = commit_events(
                    Ok::<MotionCommitView, CoreFault>(commit@),
                    self@,
                    viewed(saved),
                );
                assert(Seq::<CoreEventView>::empty() + told =~= told);
                self.emit_deferred(events);
                Ok(commit)
            },
            Err(e) => {
                assert(self@.outbox + Seq::<CoreEventView>::empty() =~= self@.outbox);
                Err(e)
            },
        }
    }

    /// Registers a rendered motion graphic and puts it on the timeline, with the
    /// events queued.
    pub fn commit_motion_media_for_project_deferred(
        &mut self,
        expected_project_epoch: u64,
        expected_version: u64,
        expected_project_dir: &str,
        file: GeneratedFile,
        regular: &Result<bool, String>,
        placement: MotionPlacement,
        outside: Outside,
        saved: Result<String, CoreError>,
        events: &mut DeferredCoreEvents,
    ) -> (r: Result<MotionMediaCommit, CoreError>)
        requires
            old(self)@.editor.state.version < u64::MAX,
        ensures
            ({
                let (done, next) = generated_committed(
                    old(self)@,
                    expected_project_epoch,
                    expected_version,
                    expected_project_dir@,
                    GeneratedFile { kind: ClipType::Video, ..file },
                    looked(*regular),
                    placement@,
                    "Add Motion Graphic"@,
                    outside,
                    viewed(saved),
                );
                &&& viewed(r) == done
                &&& final(self)@ == next
                &&& final(events)@ == old(events)@ + commit_events(done, next, viewed(saved))
            }),
    {
        let mut video = file;
        video.kind = ClipType::Video;
        self.commit_generated_media_for_project_deferred(
            expected_project_epoch,
            expected_version,
            expected_project_dir,
            &video,
            regular,
            placement,
            "Add Motion Graphic",
            outside,
            saved,
            events,
        )
    }

    /// Registers a rendered motion graphic, puts it on the timeline, and tells.
    pub fn commit_motion_media_for_project(
        &mut self,
        expected_project_epoch: u64,
        expected_version: u64,
        expected_project_dir: &str,
        file: GeneratedFile,
        regular: &Result<bool, String>,
        placement: MotionPlacement,
        outside: Outside,
        saved: Result<String, CoreError>,
    ) -> (r: Result<MotionMediaCommit, CoreError>)
        requires
            old(self)@.editor.state.version < u64::MAX,
        ensures
            ({
                let (done, next) = generated_committed(
                    old(self)@,
                    expected_project_epoch,
                    expected_version,
                    expected_project_dir@,
                    GeneratedFile { kind: ClipType::Video, ..file },
                    looked(*regular),
                    placement@,
                    "Add Motion Graphic"@,
                    outside,
                    viewed(saved),
                );
                &&& viewed(r) == done
                &&& final(self)@ == emitted(next, commit_events(done, next, viewed(saved)))
            }),
    {
        let mut video = file;
        video.kind = ClipType::Video;
        self.commit_generated_media_for_project(
            expected_project_epoch,
            expected_version,
            expected_project_dir,
            &video,
            regular,
            placement,
            "Add Motion Graphic",
            outside,
            saved,
        )
    }
}

/// A commit that fails, whatever the reason, leaves document, history, version and
/// media library as they were, and is not told: only the id generator may have moved.
pub proof fn law_failed_commit_leaves_nothing(
    c: CoreView,
    epoch: u64,
    version: u64,
    dir: Seq<char>,
    f: GeneratedFile,
    regular: Result<bool, Seq<char>>,
    placement: PlacementView,
    action: Seq<char>,
    o: Outside,
    saved: Result<Seq<char>, CoreFault>,
)
    requires
        generated_committed(c, epoch, version, dir, f, regular, placement, action, o, saved).0
            is Err,
    ensures
        ({
            let (r, next) = generated_committed(
                c,
                epoch,
                version,
                dir,
                f,
                regular,
                placement,
                action,
                o,
                saved,
            );
            &&& next.editor == c.editor
            &&& next.project_epoch == c.project_epoch
            &&& next.outbox == c.outbox
            &&& commit_events(r, next, saved) == Seq::<CoreEventView>::empty()
        }),
{
}

/// A generated file that has been committed can be taken back under the label that was
/// reported.
pub proof fn law_generated_edit_goes_by_its_label(
    c: CoreView,
    epoch: u64,
    version: u64,
    dir: Seq<char>,
    f: GeneratedFile,
    regular: Result<bool, Seq<char>>,
    placement: PlacementView,
    action: Seq<char>,
    o: Outside,
    saved: Result<Seq<char>, CoreFault>,
)
    requires
        c.editor.state.version < u64::MAX,
        generated_committed(c, epoch, version, dir, f, regular, placement, action, o, saved).0
            is Ok,
    ensures
        ({
            let (r, next) = generated_committed(
                c,
                epoch,
                version,
                dir,
                f,
                regular,
                placement,
                action,
                o,
                saved,
            );
            let s = next.editor.state;
            &&& r->Ok_0.edit.action_name == action
            &&& s.undo_stack.len() == c.editor.state.undo_stack.len() + 1
            &&& s.undo_stack.last().action_name == action
            &&& undone(s).timeline == c.editor.state.timeline
            &&& undone(s).manifest == c.editor.state.manifest
        }),
{
}

} // verus!
