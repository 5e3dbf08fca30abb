//! Registering freshly made media together with the edit that uses it, and
//! exchanging the media that a clip shows.

use crate::commands::effects::change_clips;
use crate::commands::effects::clips_changed;
use crate::commands::effects::ClipChange;
use crate::commands::effects::ClipChangeView;
use crate::commands::placement::add_clips;
use crate::commands::placement::add_clips_auto_track;
use crate::commands::placement::add_clips_auto_track_spec;
use crate::commands::placement::add_clips_spec;
use crate::commands::placement::shared_ids;
use crate::commands::ripple::freeze_frame;
use crate::commands::ripple::freeze_frame_spec;
use crate::edit::invalid;
use crate::edit::outcome;
use crate::edit::verdict;
use crate::edit::EditError;
use crate::edit::EditResult;
use crate::edit::EditResultView;
use crate::edit::Fault;
use crate::entries::clip_entry_views;
use crate::entries::ClipEntry;
use crate::entries::ClipEntryView;
use crate::frames::invalid_if;
use crate::ids::CoreIdGen;
use crate::ids::IdsView;
use crate::links::expand_to_link_group;
use crate::links::link_expanded;
use crate::locate::clip_at;
use crate::locate::clip_not_found;
use crate::locate::find;
use crate::locate::find_media;
use crate::locate::lemma_timeline_parts;
use crate::locate::locate;
use crate::locate::media_entry;
use crate::locate::media_index;
use crate::locate::require_clip;
use crate::model::kind_name;
use crate::model::ClipType;
use crate::model::MediaManifestEntry;
use crate::model::MediaManifestEntryView;
use crate::model::MediaManifestView;
use crate::model::Timeline;
use crate::model::TimelineView;
use crate::state::report;
use crate::state::result;
use crate::state::timeline_transacted;
use crate::state::transact;
use crate::state::transact_timeline;
use crate::state::transacted;
use crate::state::undone;
use crate::state::EditorState;
use crate::state::Placed;
use crate::state::PlacedView;
use crate::state::StateView;
use crate::state::Work;
use crate::state::WorkView;
use crate::text::cat2;
use crate::text::cat3;
use crate::text::cat4;
use crate::text::join;
use crate::text::joined;
use crate::text::nat_text;
use crate::text::opt_text;
use crate::text::texts;
use crate::text::trim;
use crate::text::trimmed;
use crate::text::usize_to_text;
use vstd::prelude::*;

verus! {

/// The members, among the first `n` ids, that show the given medium.
pub open spec fn showing(
    t: TimelineView,
    ids: Seq<Seq<char>>,
    media_ref: Seq<char>,
    n: int,
) -> Seq<Seq<char>>
    decreases n,
{
    if n <= 0 {
        Seq::empty()
    } else {
        let rest = showing(t, ids, media_ref, n - 1);
        match locate(t, ids[n - 1]) {
            Some(p) => if clip_at(t, p).media_ref == media_ref {
                rest.push(ids[n - 1])
            } else {
                rest
            },
            None => rest,
        }
    }
}

/// The clips that change media together: the clip and those linked to it that show
/// the same medium.
pub open spec fn swap_targets(t: TimelineView, id: Seq<char>) -> Seq<Seq<char>> {
    let group = link_expanded(t, seq![id]);
    showing(t, group, clip_at(t, locate(t, id)->0).media_ref, group.len() as int)
}

/// The summary of exchanging media.
pub open spec fn swapped_summary(
    id: Seq<char>,
    targets: nat,
    old_ref: Seq<char>,
    new_ref: Seq<char>,
) -> Seq<char> {
    if targets <= 1 {
        "Swapped "@ + id + ": "@ + old_ref + " -> "@ + new_ref
    } else {
        "Swapped "@ + nat_text(targets) + " linked clips: "@ + old_ref + " -> "@ + new_ref
    }
}

/// Exchanging the medium that a clip shows. The medium has to exist and to be of
/// the clip's type; the one that it shows already changes nothing.
pub open spec fn swap_media_spec(
    s: StateView,
    id: Seq<char>,
    media_ref: Seq<char>,
    registry_fault: Option<Seq<char>>,
) -> (Result<EditResultView, Fault>, StateView) {
    match locate(s.timeline, id) {
        None => (Err(clip_not_found(id)), s),
        Some(p) => {
            let c = clip_at(s.timeline, p);
            match media_entry(s.manifest, media_ref) {
                None => (Err(Fault::Invalid("Media not found: "@ + media_ref)), s),
                Some(asset) => {
                    if c.media_type != asset.kind {
                        (
                            Err(
                                Fault::Refused(
                                    "Type mismatch: clip is "@ + kind_name(c.media_type)
                                        + ", asset is "@ + kind_name(asset.kind),
                                ),
                            ),
                            s,
                        )
                    } else if c.media_ref == media_ref {
                        (
                            Ok(
                                report(
                                    false,
                                    false,
                                    "Swap Media"@,
                                    seq![id],
                                    s.version,
                                    "No-op: "@ + id + " already references "@ + media_ref,
                                ),
                            ),
                            s,
                        )
                    } else {
                        let targets = swap_targets(s.timeline, id);
                        timeline_transacted(
                            s,
                            "Swap Media"@,
                            swapped_summary(id, targets.len(), c.media_ref, media_ref),
                            clips_changed(
                                s.timeline,
                                targets,
                                ClipChangeView::MediaSwap(media_ref),
                                targets.len() as int,
                            ),
                            targets,
                            registry_fault,
                        )
                    }
                },
            }
        },
    }
}

fn gather_targets(timeline: &Timeline, group: &Vec<String>, media_ref: &String) -> (r: Vec<String>)
    ensures
        texts(r@) == showing(timeline@, texts(group@), media_ref@, group@.len() as int),
{
    let ghost t = timeline@;
    let ghost ids = texts(group@);
    let mut out: Vec<String> = Vec::new();
    let mut i: usize = 0;
    assert(texts(out@) =~= Seq::empty());
    while i < group.len()
        invariant
            i <= group@.len(),
            t == timeline@,
            ids == texts(group@),
            texts(out@) == showing(t, ids, media_ref@, i as int),
        decreases group@.len() - i,
    {
        let ghost before = texts(out@);
        if let Some((ti, ci)) = find(timeline, group[i].as_str()) {
            proof {
                lemma_timeline_parts(*timeline, ti as int, ci as int);
            }
            if timeline.tracks[ti].clips[ci].media_ref == *media_ref {
                out.push(group[i].clone());
                assert(texts(out@) =~= before.push(ids[i as int]));
            }
        }
        i += 1;
    }
    out
}

/// Replaces the medium that a clip shows, and keeps every edit of the clip.
pub fn swap_media(
    state: &mut EditorState,
    clip_id: String,
    media_ref: String,
    registry_fault: &Option<String>,
) -> (r: Result<EditResult, EditError>)
    requires
        old(state)@.version < u64::MAX,
    ensures
        (outcome(r), final(state)@) == swap_media_spec(
            old(state)@,
            clip_id@,
            media_ref@,
            opt_text(*registry_fault),
        ),
{
    let (ti, ci) = match require_clip(&state.timeline, clip_id.as_str()) {
        Ok(place) => place,
        Err(e) => return Err(e),
    };
    proof {
        lemma_timeline_parts(state.timeline, ti as int, ci as int);
    }
    let index: usize = match find_media(&state.manifest, media_ref.as_str()) {
        Some(index) => index,
        None => return Err(EditError::Invalid(cat2("Media not found: ", media_ref.as_str()))),
    };
    let kind = state.manifest.entries[index].kind;
    let media_type = state.timeline.tracks[ti].clips[ci].media_type;
    if media_type != kind {
        return Err(
            EditError::Refused(
                cat4("Type mismatch: clip is ", media_type.name(), ", asset is ", kind.name()),
            ),
        );
    }
    let old_ref = state.timeline.tracks[ti].clips[ci].media_ref.clone();
    let seed: Vec<String> = vec![clip_id.clone()];
    assert(texts(seed@) =~= seq![clip_id@]);
    if old_ref == media_ref {
        let summary = cat4(
            "No-op: ",
            clip_id.as_str(),
            " already references ",
            media_ref.as_str(),
        );
        return Ok(result(state, false, false, "Swap Media", seed, summary.as_str()));
    }
    let group = expand_to_link_group(&state.timeline, &seed);
    let targets = gather_targets(&state.timeline, &group, &old_ref);
    assert(texts(targets@).len() == targets@.len());
    assert(texts(group@).len() == group@.len());
    let what = if targets.len() <= 1 {
        cat4("Swapped ", clip_id.as_str(), ": ", old_ref.as_str())
    } else {
        let count = usize_to_text(targets.len());
        cat4("Swapped ", count.as_str(), " linked clips: ", old_ref.as_str())
    };
    let summary = cat3(what.as_str(), " -> ", media_ref.as_str());
    let mut timeline = state.timeline.copy();
    let change = ClipChange::MediaSwap(media_ref);
    change_clips(&mut timeline, &targets, &change);
    transact_timeline(
        state,
        "Swap Media",
        summary.as_str(),
        timeline,
        targets,
        registry_fault,
    )
}

/// The complaint against registering media, if any: its id and its source have to
/// be new.
pub open spec fn registration_fault(m: MediaManifestView, media: MediaManifestEntryView) -> Option<
    Seq<char>,
> {
    if trimmed(media.id).len() == 0 {
        Some("generated media id must not be empty"@)
    } else if media_index(m.entries, media.id, 0) is Some {
        Some("Media already exists: "@ + media.id)
    } else if exists|i: int|
        0 <= i < m.entries.len() && (#[trigger] m.entries[i]).source == media.source {
        Some("generated media source is already registered"@)
    } else {
        None
    }
}

/// Checks media to be registered.
pub fn validate_registered_media(state: &EditorState, media: &MediaManifestEntry) -> (r: Result<
    (),
    EditError,
>)
    ensures
        verdict(r) == invalid_if(registration_fault(state@.manifest, media@)),
{
    let stripped = trim(media.id.as_str());
    if stripped.as_str().is_empty() {
        return Err(invalid("generated media id must not be empty"));
    }
    if find_media(&state.manifest, media.id.as_str()).is_some() {
        return Err(EditError::Invalid(cat2("Media already exists: ", media.id.as_str())));
    }
    let ghost entries = state@.manifest.entries;
    let mut i: usize = 0;
    while i < state.manifest.entries.len()
        invariant
            i <= state.manifest.entries@.len(),
            entries == state@.manifest.entries,
            trimmed(media@.id).len() > 0,
            media_index(entries, media@.id, 0) is None,
            forall|k: int| 0 <= k < i ==> (#[trigger] entries[k]).source != media@.source,
        decreases state.manifest.entries@.len() - i,
    {
        assert(entries[i as int] == state.manifest.entries@[i as int]@);
        if state.manifest.entries[i].source == media.source {
            return Err(invalid("generated media source is already registered"));
        }
        i += 1;
    }
    Ok(())
}

/// The state with one more medium in the library, to try an edit on.
pub open spec fn registered(s: StateView, media: MediaManifestEntryView) -> StateView {
    StateView {
        manifest: MediaManifestView {
            entries: s.manifest.entries.push(media),
            ..s.manifest
        },
        ..s
    }
}

fn with_registered(state: &EditorState, media: MediaManifestEntry) -> (r: EditorState)
    ensures
        r@ == registered(state@, media@),
{
    let mut candidate = state.copy();
    let ghost entries = candidate@.manifest.entries;
    candidate.manifest.entries.push(media);
    assert(candidate@.manifest.entries =~= entries.push(media@));
    assert(candidate@ =~= registered(state@, media@));
    candidate
}

/// Committing, as one edit, the document that a trial came to. A trial that failed
/// fails the edit, and nothing changes.
pub open spec fn trial_committed(
    s: StateView,
    trial: (Result<EditResultView, Fault>, StateView),
    action: Seq<char>,
    what: Seq<char>,
    registry_fault: Option<Seq<char>>,
) -> (Result<EditResultView, Fault>, StateView) {
    match trial.0 {
        Err(f) => (Err(f), s),
        Ok(e) => transacted(
            s,
            action,
            what + joined(e.affected_clip_ids, ", "@),
            Ok(
                WorkView {
                    timeline: trial.1.timeline,
                    manifest: trial.1.manifest,
                    affected: e.affected_clip_ids,
                },
            ),
            registry_fault,
        ),
    }
}

fn commit_trial(
    state: &mut EditorState,
    candidate: EditorState,
    affected: Vec<String>,
    action: &str,
    what: &str,
    registry_fault: &Option<String>,
) -> (r: Result<EditResult, EditError>)
    requires
        old(state)@.version < u64::MAX,
    ensures
        (outcome(r), final(state)@) == transacted(
            old(state)@,
            action@,
            what@ + joined(texts(affected@), ", "@),
            Ok(
                WorkView {
                    timeline: candidate@.timeline,
                    manifest: candidate@.manifest,
                    affected: texts(affected@),
                },
            ),
            opt_text(*registry_fault),
        ),
{
    let list = join(&affected, ", ");
    let summary = cat2(what, list.as_str());
    let EditorState { timeline, manifest, .. } = candidate;
    transact(
        state,
        action,
        summary.as_str(),
        Ok(Work { timeline, manifest, affected }),
        registry_fault,
    )
}

/// The complaint against a clip that is to show media being registered, if any.
pub open spec fn registered_entry_fault(
    m: MediaManifestView,
    media: MediaManifestEntryView,
    entry: ClipEntryView,
) -> Option<Seq<char>> {
    if registration_fault(m, media) is Some {
        registration_fault(m, media)
    } else if media.kind != entry.media_type || media.kind != entry.source_clip_type {
        Some("generated media type must match the placed clip type"@)
    } else if entry.media_ref != media.id {
        Some("placed clip must reference the generated media id"@)
    } else {
        None
    }
}

/// Registering media and placing a clip that shows it, as one edit.
pub open spec fn register_media_and_add_clip_spec(
    s: StateView,
    media: MediaManifestEntryView,
    entry: ClipEntryView,
    auto_track: bool,
    ids: IdsView,
    placed: PlacedView,
    registry_fault: Option<Seq<char>>,
) -> (Result<EditResultView, Fault>, StateView) {
    match registered_entry_fault(s.manifest, media, entry) {
        Some(m) => (Err(Fault::Invalid(m)), s),
        None => {
            let candidate = registered(s, media);
            trial_committed(
                s,
                if auto_track {
                    add_clips_auto_track_spec(candidate, seq![entry], ids, placed, registry_fault)
                } else {
                    add_clips_spec(candidate, seq![entry], placed, registry_fault)
                },
                "Add Motion Graphic"@,
                "Added motion graphic: "@,
                registry_fault,
            )
        },
    }
}

/// The id generator after media has been registered and placed: a fresh track takes an
/// id.
pub open spec fn registering_ids(
    s: StateView,
    media: MediaManifestEntryView,
    entry: ClipEntryView,
    auto_track: bool,
    ids: IdsView,
) -> IdsView {
    if registered_entry_fault(s.manifest, media, entry) is None && auto_track {
        shared_ids(s, seq![entry], ids)
    } else {
        ids
    }
}

/// Registers media and places a clip that shows it in one undo step. `placed` is
/// what placing the clip made of the timeline.
pub fn register_media_and_add_clip(
    state: &mut EditorState,
    media: MediaManifestEntry,
    entry: ClipEntry,
    auto_track: bool,
    ids: &mut CoreIdGen,
    placed: Placed,
    registry_fault: &Option<String>,
) -> (r: Result<EditResult, EditError>)
    requires
        old(state)@.version < u64::MAX,
    ensures
        (outcome(r), final(state)@) == register_media_and_add_clip_spec(
            old(state)@,
            media@,
            entry@,
            auto_track,
            old(ids)@,
            placed@,
            opt_text(*registry_fault),
        ),
        final(ids)@ == registering_ids(old(state)@, media@, entry@, auto_track, old(ids)@),
{
    if let Err(e) = validate_registered_media(state, &media) {
        return Err(e);
    }
    if media.kind != entry.media_type || media.kind != entry.source_clip_type {
        return Err(invalid("generated media type must match the placed clip type"));
    }
    if entry.media_ref != media.id {
        return Err(invalid("placed clip must reference the generated media id"));
    }
    let mut candidate = with_registered(state, media);
    let entries: Vec<ClipEntry> = vec![entry];
    assert(clip_entry_views(entries@) =~= seq![entry@]);
    let trial = if auto_track {
        add_clips_auto_track(&mut candidate, entries, ids, placed, registry_fault)
    } else {
        add_clips(&mut candidate, entries, placed, registry_fault)
    };
    match trial {
        Err(e) => Err(e),
        Ok(done) => commit_trial(
            state,
            candidate,
            done.affected_clip_ids,
            "Add Motion Graphic",
            "Added motion graphic: ",
            registry_fault,
        ),
    }
}

/// A trial after which the masks of a clip are cleared.
pub open spec fn masks_cleared(
    trial: (Result<EditResultView, Fault>, StateView),
    id: Seq<char>,
) -> (Result<EditResultView, Fault>, StateView) {
    match trial.0 {
        Err(f) => trial,
        Ok(e) => match locate(trial.1.timeline, id) {
            None => (Err(Fault::Invalid("replacement clip disappeared"@)), trial.1),
            Some(p) => (
                trial.0,
                StateView {
                    timeline: clips_changed(
                        trial.1.timeline,
                        seq![id],
                        ClipChangeView::Masks(Seq::empty()),
                        1,
                    ),
                    ..trial.1
                },
            ),
        },
    }
}

/// Registering media and having a clip show it, as one edit; its masks are cleared
/// where the media already holds what they did.
pub open spec fn register_media_and_swap_clip_spec(
    s: StateView,
    media: MediaManifestEntryView,
    id: Seq<char>,
    clear_masks: bool,
    registry_fault: Option<Seq<char>>,
) -> (Result<EditResultView, Fault>, StateView) {
    match registration_fault(s.manifest, media) {
        Some(m) => (Err(Fault::Invalid(m)), s),
        None => {
            let trial = swap_media_spec(registered(s, media), id, media.id, registry_fault);
            if clear_masks {
                trial_committed(
                    s,
                    masks_cleared(trial, id),
                    "Remove Masked Object"@,
                    "Removed masked object: "@,
                    registry_fault,
                )
            } else {
                trial_committed(
                    s,
                    trial,
                    "Edit Motion Graphic"@,
                    "Edited motion graphic: "@,
                    registry_fault,
                )
            }
        },
    }
}

/// Registers media and swaps a clip to it in one undo step; with `clear_masks` the
/// clip's masks go too.
pub fn register_media_and_swap_clip(
    state: &mut EditorState,
    media: MediaManifestEntry,
    clip_id: String,
    clear_masks: bool,
    registry_fault: &Option<String>,
) -> (r: Result<EditResult, EditError>)
    requires
        old(state)@.version < u64::MAX,
    ensures
        (outcome(r), final(state)@) == register_media_and_swap_clip_spec(
            old(state)@,
            media@,
            clip_id@,
            clear_masks,
            opt_text(*registry_fault),
        ),
{
    if let Err(e) = validate_registered_media(state, &media) {
        return Err(e);
    }
    let media_ref = media.id.clone();
    let mut candidate = with_registered(state, media);
    let done = match swap_media(&mut candidate, clip_id.clone(), media_ref, registry_fault) {
        Err(e) => return Err(e),
        Ok(done) => done,
    };
    if clear_masks {
        if find(&candidate.timeline, clip_id.as_str()).is_none() {
            return Err(invalid("replacement clip disappeared"));
        }
        let seed: Vec<String> = vec![clip_id];
        assert(texts(seed@) =~= seq![clip_id@]);
        let ghost trial = candidate@;
        let masks = ClipChange::Masks(Vec::new());
        proof {
            assert(masks@->Masks_0 =~= Seq::empty());
        }
        change_clips(&mut candidate.timeline, &seed, &masks);
        assert(candidate@ =~= StateView {
            timeline: clips_changed(
                trial.timeline,
                seq![clip_id@],
                ClipChangeView::Masks(Seq::empty()),
                1,
            ),
            ..trial
        });
        commit_trial(
            state,
            candidate,
            done.affected_clip_ids,
            "Remove Masked Object",
            "Removed masked object: ",
            registry_fault,
        )
    } else {
        commit_trial(
            state,
            candidate,
            done.affected_clip_ids,
            "Edit Motion Graphic",
            "Edited motion graphic: ",
            registry_fault,
        )
    }
}

/// Registering a captured still and freezing a clip to it, as one edit.
pub open spec fn register_media_and_freeze_frame_spec(
    s: StateView,
    media: MediaManifestEntryView,
    id: Seq<char>,
    at_frame: int,
    duration: int,
    ripple_fault: Option<Seq<char>>,
    placed: PlacedView,
    registry_fault: Option<Seq<char>>,
) -> (Result<EditResultView, Fault>, StateView) {
    match registration_fault(s.manifest, media) {
        Some(m) => (Err(Fault::Invalid(m)), s),
        None => {
            if !(media.kind is Image) {
                (Err(Fault::Invalid("freeze-frame capture must be an image"@)), s)
            } else {
                trial_committed(
                    s,
                    freeze_frame_spec(
                        registered(s, media),
                        id,
                        at_frame,
                        duration,
                        ripple_fault,
                        placed,
                        registry_fault,
                    ),
                    "Freeze Frame"@,
                    "Froze frame: "@,
                    registry_fault,
                )
            }
        },
    }
}

/// Registers one captured still and freezes a clip to it in one undo step.
/// `ripple_fault` and `placed` are as for [`freeze_frame`], over the document with
/// the still registered.
pub fn register_media_and_freeze_frame(
    state: &mut EditorState,
    media: MediaManifestEntry,
    clip_id: String,
    at_frame: i32,
    duration_frames: i32,
    ripple_fault: &Option<String>,
    placed: Placed,
    registry_fault: &Option<String>,
) -> (r: Result<EditResult, EditError>)
    requires
        old(state)@.version < u64::MAX,
    ensures
        (outcome(r), final(state)@) == register_media_and_freeze_frame_spec(
            old(state)@,
            media@,
            clip_id@,
            at_frame as int,
            duration_frames as int,
            opt_text(*ripple_fault),
            placed@,
            opt_text(*registry_fault),
        ),
{
    if let Err(e) = validate_registered_media(state, &media) {
        return Err(e);
    }
    if media.kind != ClipType::Image {
        return Err(invalid("freeze-frame capture must be an image"));
    }
    let mut candidate = with_registered(state, media);
    match freeze_frame(
        &mut candidate,
        clip_id,
        at_frame,
        duration_frames,
        ripple_fault,
        placed,
        registry_fault,
    ) {
        Err(e) => Err(e),
        Ok(done) => commit_trial(
            state,
            candidate,
            done.affected_clip_ids,
            "Freeze Frame",
            "Froze frame: ",
            registry_fault,
        ),
    }
}

/// An edit that registers media and fails leaves no media behind.
pub proof fn law_failed_registration_leaves_nothing(
    s: StateView,
    trial: (Result<EditResultView, Fault>, StateView),
    action: Seq<char>,
    what: Seq<char>,
    registry_fault: Option<Seq<char>>,
)
    requires
        trial_committed(s, trial, action, what, registry_fault).0 is Err,
    ensures
        trial_committed(s, trial, action, what, registry_fault).1 == s,
{
}

/// Registering media and placing a clip that shows it, where it succeeds, adds that medium
/// to the library and changes nothing else in it; one undo takes it out again.
pub proof fn law_registered_media_is_in_the_library(
    s: StateView,
    media: MediaManifestEntryView,
    entry: ClipEntryView,
    auto_track: bool,
    ids: IdsView,
    placed: PlacedView,
    registry_fault: Option<Seq<char>>,
)
    requires
        register_media_and_add_clip_spec(
            s,
            media,
            entry,
            auto_track,
            ids,
            placed,
            registry_fault,
        ).0 is Ok,
    ensures
        ({
            let (r, next) = register_media_and_add_clip_spec(
                s,
                media,
                entry,
                auto_track,
                ids,
                placed,
                registry_fault,
            );
            &&& next.manifest == registered(s, media).manifest
            &&& r->Ok_0.manifest_changed
            &&& undone(next).manifest == s.manifest
        }),
{
    let next = register_media_and_add_clip_spec(
        s,
        media,
        entry,
        auto_track,
        ids,
        placed,
        registry_fault,
    ).1;
    assert(next.manifest.entries.len() == s.manifest.entries.len() + 1);
}

/// Freezing a frame to a captured still, where it succeeds, adds that still to the library
/// and changes nothing else in it; one undo takes it out again.
pub proof fn law_registered_still_is_in_the_library(
    s: StateView,
    media: MediaManifestEntryView,
    id: Seq<char>,
    at_frame: int,
    duration: int,
    ripple_fault: Option<Seq<char>>,
    placed: PlacedView,
    registry_fault: Option<Seq<char>>,
)
    requires
        register_media_and_freeze_frame_spec(
            s,
            media,
            id,
            at_frame,
            duration,
            ripple_fault,
            placed,
            registry_fault,
        ).0 is Ok,
    ensures
        ({
            let (r, next) = register_media_and_freeze_frame_spec(
                s,
                media,
                id,
                at_frame,
                duration,
                ripple_fault,
                placed,
                registry_fault,
            );
            &&& next.manifest == registered(s, media).manifest
            &&& r->Ok_0.manifest_changed
            &&& undone(next).manifest == s.manifest
        }),
{
    let next = register_media_and_freeze_frame_spec(
        s,
        media,
        id,
        at_frame,
        duration,
        ripple_fault,
        placed,
        registry_fault,
    ).1;
    assert(next.manifest.entries.len() == s.manifest.entries.len() + 1);
}

} // verus!
