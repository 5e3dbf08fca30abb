//! Commands on texts and captions.

use crate::arrange::add_clip_to_track;
use crate::arrange::by_start;
use crate::arrange::law_sorting;
use crate::arrange::sort_clips;
use crate::arrange::with_new_clip;
use crate::edit::invalid;
use crate::edit::outcome;
use crate::edit::verdict;
use crate::edit::EditError;
use crate::edit::EditResult;
use crate::edit::EditResultView;
use crate::edit::Fault;
use crate::entries::caption_entry_views;
use crate::entries::caption_translation_change_views;
use crate::entries::text_auto_track_entry_views;
use crate::entries::text_entry_views;
use crate::entries::CaptionEntry;
use crate::entries::CaptionEntryView;
use crate::entries::CaptionTranslationChange;
use crate::entries::CaptionTranslationChangeView;
use crate::entries::TextAutoTrackEntry;
use crate::entries::TextAutoTrackEntryView;
use crate::entries::TextEntry;
use crate::entries::TextEntryView;
use crate::frames::checked_clip_frame_arithmetic;
use crate::frames::invalid_if;
use crate::frames::item_label;
use crate::frames::placed_fault;
use crate::frames::validate_timeline_frame_arithmetic;
use crate::fresh::fresh_clip;
use crate::fresh::fresh_track;
use crate::ids::ids_after;
use crate::ids::lemma_ids_after;
use crate::ids::mint;
use crate::ids::minted;
use crate::ids::nth_id;
use crate::ids::CoreIdGen;
use crate::ids::IdsView;
use crate::locate::clip_at;
use crate::locate::clip_not_found;
use crate::locate::find;
use crate::locate::find_track;
use crate::locate::lemma_clip_replaced;
use crate::locate::lemma_located;
use crate::locate::lemma_timeline_parts;
use crate::locate::lemma_track_index;
use crate::locate::lemma_tracks_replaced;
use crate::locate::locate;
use crate::locate::lost_track;
use crate::locate::require_clip;
use crate::locate::track_index;
use crate::locate::track_lost;
use crate::locate::with_clip;
use crate::model::compatible;
use crate::model::timeline_views;
use crate::model::Clip;
use crate::model::ClipType;
use crate::model::ClipView;
use crate::model::Real;
use crate::model::Setting;
use crate::model::SettingView;
use crate::model::Timeline;
use crate::model::TimelineView;
use crate::model::Track;
use crate::model::TrackView;
use crate::model::Transform;
use crate::state::ids_spent;
use crate::state::report;
use crate::state::result;
use crate::state::timeline_transacted;
use crate::state::transact;
use crate::state::transact_timeline;
use crate::state::transacted;
use crate::state::EditorState;
use crate::state::StateView;
use crate::state::Work;
use crate::state::WorkView;
use crate::text::cat2;
use crate::text::cat3;
use crate::text::cat4;
use crate::text::join;
use crate::text::joined;
use crate::text::nat_text;
use crate::text::opt_text;
use crate::text::texts;
use crate::text::trim;
use crate::text::trimmed;
use crate::text::usize_to_text;
use crate::transitions::pruned_track;
use vstd::prelude::*;
use vstd::string::StringExecFns;

verus! {

/// The label of an entry.
pub open spec fn entry_label(i: int) -> Seq<char> {
    item_label("entries"@, "["@, i)
}

/// Builds the label of an entry.
pub fn label_entry(i: usize) -> (r: String)
    ensures
        r@ == entry_label(i as int),
{
    let index = usize_to_text(i);
    cat4("entries", "[", index.as_str(), "]")
}

/// The complaint against the span of a text clip.
pub open spec fn text_span_fault(start: i32, duration: i32, i: int) -> Option<Seq<char>> {
    placed_fault(
        start as int,
        duration as int,
        0,
        0,
        Real { bits: 0x3FF0_0000_0000_0000 },
        ClipType::Text,
        entry_label(i),
    )
}

fn check_text_span(start: i32, duration: i32, i: usize) -> (r: Result<i32, EditError>)
    ensures
        crate::frames::frame_verdict(r) == invalid_if(text_span_fault(start, duration, i as int)),
        r matches Ok(end) ==> end == start + duration,
{
    let label = label_entry(i);
    checked_clip_frame_arithmetic(
        start,
        duration,
        0,
        0,
        Real::one(),
        ClipType::Text,
        label.as_str(),
    )
}

/// A text clip.
pub open spec fn text_clip(
    id: Seq<char>,
    start: i32,
    duration: i32,
    content: Seq<char>,
    style: SettingView,
    transform: Transform,
) -> ClipView {
    ClipView {
        media_type: ClipType::Text,
        source_clip_type: ClipType::Text,
        transform,
        text_content: Some(content),
        text_style: Some(style),
        ..fresh_clip(id, Seq::empty(), start, duration)
    }
}

fn build_text_clip(
    id: String,
    start: i32,
    duration: i32,
    content: &String,
    style: &Setting,
    transform: Transform,
) -> (r: Clip)
    ensures
        r@ == text_clip(id@, start, duration, content@, style@, transform),
{
    let mut clip = Clip::new(id, String::new(), start, duration);
    clip.media_type = ClipType::Text;
    clip.source_clip_type = ClipType::Text;
    clip.transform = transform;
    clip.text_content = Some(content.clone());
    clip.text_style = Some(style.clone());
    clip
}

/// A caption clip: a text clip with its group.
pub open spec fn caption_clip(e: CaptionEntryView, id: Seq<char>) -> ClipView {
    ClipView {
        caption_group_id: Some(e.caption_group_id),
        ..text_clip(id, e.start_frame, e.duration_frames, e.content, e.text_style, e.transform)
    }
}

/// The first complaint, from `from` on, against the spans of captions.
pub open spec fn captions_fault(entries: Seq<CaptionEntryView>, from: int) -> Option<Seq<char>>
    decreases entries.len() - from,
{
    if from < 0 || from >= entries.len() {
        None
    } else {
        match text_span_fault(entries[from].start_frame, entries[from].duration_frames, from) {
            Some(m) => Some(m),
            None => captions_fault(entries, from + 1),
        }
    }
}

/// The clips of a batch of captions; the clip of entry `k` takes the id after
/// that of the track and of the entries before it.
pub open spec fn caption_clips(entries: Seq<CaptionEntryView>, ids: IdsView) -> Seq<ClipView> {
    Seq::new(entries.len(), |k: int| caption_clip(entries[k], nth_id(ids, k + 2)))
}

/// The ids of the clips of a batch.
pub open spec fn batch_ids(n: nat, ids: IdsView) -> Seq<Seq<char>> {
    Seq::new(n, |k: int| nth_id(ids, k + 2))
}

/// Placing a batch of captions on one fresh track on top. An empty batch changes
/// nothing.
pub open spec fn add_captions_spec(
    s: StateView,
    entries: Seq<CaptionEntryView>,
    ids: IdsView,
    registry_fault: Option<Seq<char>>,
) -> (Result<EditResultView, Fault>, StateView) {
    if entries.len() == 0 {
        (
            Ok(report(false, false, "Generate Captions"@, Seq::empty(), s.version, ""@)),
            s,
        )
    } else if captions_fault(entries, 0) is Some {
        (Err(Fault::Invalid(captions_fault(entries, 0)->0)), s)
    } else {
        let added = batch_ids(entries.len(), ids);
        timeline_transacted(
            s,
            "Generate Captions"@,
            "Added "@ + nat_text(entries.len()) + " caption(s): "@ + joined(added, ", "@),
            TimelineView {
                tracks: s.timeline.tracks.insert(
                    0,
                    TrackView {
                        clips: by_start(caption_clips(entries, ids)),
                        ..fresh_track(nth_id(ids, 1), ClipType::Video)
                    },
                ),
                ..s.timeline
            },
            added,
            registry_fault,
        )
    }
}

/// Places a batch of built caption clips on one fresh video track on top.
pub fn add_captions(
    state: &mut EditorState,
    entries: Vec<CaptionEntry>,
    ids: &mut CoreIdGen,
    registry_fault: &Option<String>,
) -> (r: Result<EditResult, EditError>)
    requires
        old(state)@.version < u64::MAX,
    ensures
        (outcome(r), final(state)@) == add_captions_spec(
            old(state)@,
            caption_entry_views(entries@),
            old(ids)@,
            opt_text(*registry_fault),
        ),
        final(ids)@ == (if entries@.len() > 0 && captions_fault(
            caption_entry_views(entries@),
            0,
        ) is None {
            ids_spent(old(state)@, old(ids)@, entries@.len() as int + 1)
        } else {
            old(ids)@
        }),
{
    let ghost views = caption_entry_views(entries@);
    if entries.len() == 0 {
        let affected: Vec<String> = Vec::new();
        assert(texts(affected@) =~= Seq::empty());
        return Ok(result(state, false, false, "Generate Captions", affected, ""));
    }
    let mut i: usize = 0;
    while i < entries.len()
        invariant
            i <= entries@.len(),
            entries@.len() > 0,
            views == caption_entry_views(entries@),
            state@ == old(state)@,
            ids@ == old(ids)@,
            captions_fault(views, 0) == captions_fault(views, i as int),
        decreases entries@.len() - i,
    {
        if let Err(e) = check_text_span(entries[i].start_frame, entries[i].duration_frames, i) {
            return Err(e);
        }
        i += 1;
    }
    if let Err(e) = validate_timeline_frame_arithmetic(&state.timeline, "timeline") {
        return Err(e);
    }
    let ghost start = ids@;
    let mut track = Track::new(ids.next_id(), ClipType::Video);
    let mut added: Vec<String> = Vec::new();
    let mut k: usize = 0;
    assert(texts(added@) =~= Seq::empty());
    while k < entries.len()
        invariant
            k <= entries@.len(),
            views == caption_entry_views(entries@),
            ids@ == ids_after(start, k + 1),
            texts(added@) == batch_ids(k as nat, start),
            track@ == (TrackView {
                clips: caption_clips(views, start).take(k as int),
                ..fresh_track(nth_id(start, 1), ClipType::Video)
            }),
        decreases entries@.len() - k,
    {
        let e = &entries[k];
        proof {
            lemma_ids_after(start, k + 1, 1);
        }
        let id = ids.next_id();
        let mut clip = build_text_clip(
            id.clone(),
            e.start_frame,
            e.duration_frames,
            &e.content,
            &e.text_style,
            e.transform,
        );
        clip.caption_group_id = Some(e.caption_group_id.clone());
        let ghost before = texts(added@);
        assert(id@ == nth_id(start, k as int + 2));
        added.push(id);
        assert(texts(added@) =~= before.push(nth_id(start, k as int + 2)));
        assert(before.push(nth_id(start, k as int + 2)) =~= batch_ids((k + 1) as nat, start));
        let ghost clips = track@.clips;
        track.clips.push(clip);
        assert(track@.clips =~= clips.push(clip@));
        assert(clips.push(clip@) =~= caption_clips(views, start).take(k as int + 1));
        k += 1;
    }
    assert(caption_clips(views, start).take(k as int) =~= caption_clips(views, start));
    sort_clips(&mut track);
    let mut timeline = state.timeline.copy();
    let ghost before = timeline;
    timeline.tracks.insert(0, track);
    proof {
        lemma_tracks_replaced(before, timeline);
        assert(timeline@.tracks =~= before@.tracks.insert(0, track@));
    }
    let count = usize_to_text(added.len());
    let list = join(&added, ", ");
    let summary = cat4("Added ", count.as_str(), " caption(s): ", list.as_str());
    transact_timeline(
        state,
        "Generate Captions",
        summary.as_str(),
        timeline,
        added,
        registry_fault,
    )
}

/// Whether an earlier change of the batch names the same clip.
pub open spec fn change_repeated(changes: Seq<CaptionTranslationChangeView>, i: int) -> bool {
    exists|j: int| 0 <= j < i && (#[trigger] changes[j]).clip_id == changes[i].clip_id
}

/// The complaint against one reviewed caption, if any.
pub open spec fn translation_fault(
    t: TimelineView,
    changes: Seq<CaptionTranslationChangeView>,
    i: int,
) -> Option<Fault> {
    let change = changes[i];
    if change_repeated(changes, i) {
        Some(Fault::Invalid("Duplicate caption clip: "@ + change.clip_id))
    } else if trimmed(change.translated_text).len() == 0 {
        Some(Fault::Invalid("Translated text is empty for clip "@ + change.clip_id))
    } else {
        match locate(t, change.clip_id) {
            None => Some(clip_not_found(change.clip_id)),
            Some(place) => {
                let c = clip_at(t, place);
                if !(c.media_type is Text) || c.caption_group_id is None {
                    Some(Fault::Invalid("Clip is not a caption: "@ + change.clip_id))
                } else if c.text_content != Some(change.expected_source_text) {
                    Some(Fault::Invalid("Caption text changed during review: "@ + change.clip_id))
                } else if change.input.source_text != change.expected_source_text {
                    Some(
                        Fault::Invalid(
                            "Caption provenance does not match source text: "@ + change.clip_id,
                        ),
                    )
                } else {
                    None
                }
            },
        }
    }
}

/// The first complaint, from `from` on, against a batch of reviewed captions.
pub open spec fn translations_fault(
    t: TimelineView,
    changes: Seq<CaptionTranslationChangeView>,
    from: int,
) -> Option<Fault>
    decreases changes.len() - from,
{
    if from < 0 || from >= changes.len() {
        None
    } else {
        match translation_fault(t, changes, from) {
            Some(f) => Some(f),
            None => translations_fault(t, changes, from + 1),
        }
    }
}

/// The timeline with the first `n` reviewed captions accepted: text and
/// provenance change, identity, track and timing do not.
pub open spec fn translated(
    t: TimelineView,
    changes: Seq<CaptionTranslationChangeView>,
    n: int,
) -> TimelineView
    decreases n,
{
    if n <= 0 {
        t
    } else {
        let before = translated(t, changes, n - 1);
        let change = changes[n - 1];
        match locate(before, change.clip_id) {
            None => before,
            Some(place) => with_clip(
                before,
                place,
                ClipView {
                    text_content: Some(change.translated_text),
                    caption_translation_input: Some(change.input),
                    ..clip_at(before, place)
                },
            ),
        }
    }
}

/// The ids of the clips that a batch of reviewed captions names.
pub open spec fn change_ids(changes: Seq<CaptionTranslationChangeView>) -> Seq<Seq<char>> {
    changes.map_values(|c: CaptionTranslationChangeView| c.clip_id)
}

/// Accepting a reviewed batch: all of it or none of it.
pub open spec fn apply_caption_translations_spec(
    s: StateView,
    changes: Seq<CaptionTranslationChangeView>,
    registry_fault: Option<Seq<char>>,
) -> (Result<EditResultView, Fault>, StateView) {
    if changes.len() == 0 {
        (Err(Fault::Invalid("Missing or empty caption translation changes"@)), s)
    } else if translations_fault(s.timeline, changes, 0) is Some {
        (Err(translations_fault(s.timeline, changes, 0)->0), s)
    } else {
        timeline_transacted(
            s,
            "Translate Captions"@,
            "Translated "@ + nat_text(changes.len()) + " caption(s)"@,
            translated(s.timeline, changes, changes.len() as int),
            change_ids(changes),
            registry_fault,
        )
    }
}

fn check_translation(
    state: &EditorState,
    changes: &Vec<CaptionTranslationChange>,
    i: usize,
) -> (r: Result<(), EditError>)
    requires
        i < changes@.len(),
    ensures
        verdict(r) == translation_fault(
            state@.timeline,
            caption_translation_change_views(changes@),
            i as int,
        ),
{
    let ghost views = caption_translation_change_views(changes@);
    let change = &changes[i];
    let mut j: usize = 0;
    while j < i
        invariant
            j <= i < changes@.len(),
            views == caption_translation_change_views(changes@),
            change == changes@[i as int],
            forall|k: int| 0 <= k < j ==> (#[trigger] views[k]).clip_id != views[i as int].clip_id,
        decreases i - j,
    {
        if changes[j].clip_id == change.clip_id {
            assert(views[j as int].clip_id == views[i as int].clip_id);
            return Err(
                EditError::Invalid(cat2("Duplicate caption clip: ", change.clip_id.as_str())),
            );
        }
        j += 1;
    }
    let stripped = trim(change.translated_text.as_str());
    if stripped.as_str().is_empty() {
        return Err(
            EditError::Invalid(
                cat2("Translated text is empty for clip ", change.clip_id.as_str()),
            ),
        );
    }
    let (ti, ci) = match require_clip(&state.timeline, change.clip_id.as_str()) {
        Ok(place) => place,
        Err(e) => return Err(e),
    };
    proof {
        lemma_timeline_parts(state.timeline, ti as int, ci as int);
    }
    let clip = &state.timeline.tracks[ti].clips[ci];
    if clip.media_type != ClipType::Text || clip.caption_group_id.is_none() {
        return Err(EditError::Invalid(cat2("Clip is not a caption: ", change.clip_id.as_str())));
    }
    let unchanged = match &clip.text_content {
        Some(text) => *text == change.expected_source_text,
        None => false,
    };
    if !unchanged {
        return Err(
            EditError::Invalid(
                cat2("Caption text changed during review: ", change.clip_id.as_str()),
            ),
        );
    }
    if change.input.source_text != change.expected_source_text {
        return Err(
            EditError::Invalid(
                cat2("Caption provenance does not match source text: ", change.clip_id.as_str()),
            ),
        );
    }
    Ok(())
}

fn translate(clip: &mut Clip, change: &CaptionTranslationChange)
    ensures
        final(clip)@ == (ClipView {
            text_content: Some(change@.translated_text),
            caption_translation_input: Some(change@.input),
            ..old(clip)@
        }),
{
    clip.text_content = Some(change.translated_text.clone());
    clip.caption_translation_input = Some(change.input.copy());
}

/// Accepts a reviewed batch of translated captions.
pub fn apply_caption_translations(
    state: &mut EditorState,
    changes: Vec<CaptionTranslationChange>,
    registry_fault: &Option<String>,
) -> (r: Result<EditResult, EditError>)
    requires
        old(state)@.version < u64::MAX,
    ensures
        (outcome(r), final(state)@) == apply_caption_translations_spec(
            old(state)@,
            caption_translation_change_views(changes@),
            opt_text(*registry_fault),
        ),
{
    let ghost views = caption_translation_change_views(changes@);
    if changes.len() == 0 {
        return Err(invalid("Missing or empty caption translation changes"));
    }
    let mut i: usize = 0;
    while i < changes.len()
        invariant
            i <= changes@.len(),
            changes@.len() > 0,
            views == caption_translation_change_views(changes@),
            state@ == old(state)@,
            translations_fault(state@.timeline, views, 0) == translations_fault(
                state@.timeline,
                views,
                i as int,
            ),
        decreases changes@.len() - i,
    {
        if let Err(e) = check_translation(state, &changes, i) {
            return Err(e);
        }
        i += 1;
    }
    let mut timeline = state.timeline.copy();
    let ghost first = timeline@;
    let mut affected: Vec<String> = Vec::new();
    let mut n: usize = 0;
    assert(texts(affected@) =~= Seq::empty());
    while n < changes.len()
        invariant
            n <= changes@.len(),
            views == caption_translation_change_views(changes@),
            timeline@ == translated(first, views, n as int),
            texts(affected@) == change_ids(views).take(n as int),
        decreases changes@.len() - n,
    {
        if let Some((ti, ci)) = find(&timeline, changes[n].clip_id.as_str()) {
            let ghost before = timeline;
            proof {
                lemma_timeline_parts(before, ti as int, ci as int);
            }
            translate(&mut timeline.tracks[ti].clips[ci], &changes[n]);
            proof {
                lemma_clip_replaced(before, timeline, ti as int, ci as int);
            }
        }
        let ghost listed = texts(affected@);
        affected.push(changes[n].clip_id.clone());
        assert(texts(affected@) =~= listed.push(views[n as int].clip_id));
        assert(texts(affected@) =~= change_ids(views).take(n as int + 1));
        n += 1;
    }
    assert(change_ids(views).take(n as int) =~= change_ids(views));
    let count = usize_to_text(changes.len());
    let summary = cat3("Translated ", count.as_str(), " caption(s)");
    transact_timeline(
        state,
        "Translate Captions",
        summary.as_str(),
        timeline,
        affected,
        registry_fault,
    )
}

/// The complaint against one text overlay for a given track, if any.
pub open spec fn text_entry_fault(t: TimelineView, e: TextEntryView, i: int) -> Option<Seq<char>> {
    if e.track_index >= t.tracks.len() {
        Some(
            entry_label(i) + ": track index "@ + nat_text(e.track_index as nat)
                + " out of range"@,
        )
    } else if !compatible(ClipType::Text, t.tracks[e.track_index as int].kind) {
        Some(
            entry_label(i) + ": track "@ + nat_text(e.track_index as nat)
                + " is an audio track; text requires a visual track"@,
        )
    } else {
        text_span_fault(e.start_frame, e.duration_frames, i)
    }
}

/// The first complaint, from `from` on, against text overlays.
pub open spec fn text_entries_fault(
    t: TimelineView,
    entries: Seq<TextEntryView>,
    from: int,
) -> Option<Seq<char>>
    decreases entries.len() - from,
{
    if from < 0 || from >= entries.len() {
        None
    } else {
        match text_entry_fault(t, entries[from], from) {
            Some(m) => Some(m),
            None => text_entries_fault(t, entries, from + 1),
        }
    }
}

/// The label of adding `n` texts.
pub open spec fn add_text_action(n: nat) -> Seq<char> {
    if n == 1 {
        "Add Text"@
    } else {
        "Add Texts"@
    }
}

/// The summary of adding the clips with the given ids.
pub open spec fn added_texts_summary(ids: Seq<Seq<char>>) -> Seq<char> {
    "Added "@ + nat_text(ids.len()) + " text clip(s): "@ + joined(ids, ", "@)
}

/// The timeline with one text put on the track it is meant for. `before` is the
/// timeline before its region was cleared, `cleared` that after; the track is known by
/// its id.
pub open spec fn text_placed(
    before: TimelineView,
    cleared: TimelineView,
    e: TextEntryView,
    id: Seq<char>,
) -> Option<TimelineView> {
    if e.track_index >= before.tracks.len() {
        None
    } else {
        match track_index(cleared.tracks, before.tracks[e.track_index as int].id, 0) {
            None => None,
            Some(ti) => Some(
                with_new_clip(
                    cleared,
                    ti,
                    text_clip(
                        id,
                        e.start_frame,
                        e.duration_frames,
                        e.content,
                        e.text_style,
                        e.transform,
                    ),
                ),
            ),
        }
    }
}

/// The timeline after the first `n` texts, each put on the timeline that clearing its
/// region gave; none where a track was lost.
pub open spec fn texts_placed(
    t: TimelineView,
    entries: Seq<TextEntryView>,
    cleared: Seq<TimelineView>,
    ids: IdsView,
    n: int,
) -> Option<TimelineView>
    decreases n,
{
    if n <= 0 {
        Some(t)
    } else if n > cleared.len() {
        None
    } else {
        match texts_placed(t, entries, cleared, ids, n - 1) {
            None => None,
            Some(before) => text_placed(before, cleared[n - 1], entries[n - 1], nth_id(ids, n)),
        }
    }
}

/// The work of adding texts.
pub open spec fn texts_work(
    s: StateView,
    t: TimelineView,
    entries: Seq<TextEntryView>,
    cleared: Seq<TimelineView>,
    ids: IdsView,
) -> Result<WorkView, Fault> {
    match texts_placed(t, entries, cleared, ids, entries.len() as int) {
        Some(timeline) => Ok(
            WorkView { timeline, manifest: s.manifest, affected: minted(entries.len(), ids) },
        ),
        None => Err(track_lost()),
    }
}

/// Adding text overlays: the entries have to be in order; then each text is put on the
/// timeline that clearing its region gave.
pub open spec fn add_texts_spec(
    s: StateView,
    entries: Seq<TextEntryView>,
    ids: IdsView,
    cleared: Seq<TimelineView>,
    registry_fault: Option<Seq<char>>,
) -> (Result<EditResultView, Fault>, StateView) {
    if entries.len() == 0 {
        (Err(Fault::Invalid("Missing or empty 'entries' array"@)), s)
    } else if text_entries_fault(s.timeline, entries, 0) is Some {
        (Err(Fault::Invalid(text_entries_fault(s.timeline, entries, 0)->0)), s)
    } else {
        transacted(
            s,
            add_text_action(entries.len()),
            added_texts_summary(minted(entries.len(), ids)),
            texts_work(s, s.timeline, entries, cleared, ids),
            registry_fault,
        )
    }
}

/// The text that was put last stands on the timeline.
pub proof fn law_last_text_stands(
    t: TimelineView,
    entries: Seq<TextEntryView>,
    cleared: Seq<TimelineView>,
    ids: IdsView,
)
    requires
        entries.len() > 0,
        texts_placed(t, entries, cleared, ids, entries.len() as int) is Some,
    ensures
        ({
            let after = texts_placed(t, entries, cleared, ids, entries.len() as int)->0;
            let e = entries.last();
            exists|i: int|
                0 <= i < after.tracks.len() && (#[trigger] after.tracks[i]).clips.contains(
                    text_clip(
                        nth_id(ids, entries.len() as int),
                        e.start_frame,
                        e.duration_frames,
                        e.content,
                        e.text_style,
                        e.transform,
                    ),
                )
        }),
{
    let n = entries.len() as int;
    let before = texts_placed(t, entries, cleared, ids, n - 1)->0;
    let e = entries[n - 1];
    let last = cleared[n - 1];
    let id = before.tracks[e.track_index as int].id;
    lemma_track_index(last.tracks, id, 0);
    let ti = track_index(last.tracks, id, 0)->0;
    let clip = text_clip(
        nth_id(ids, n),
        e.start_frame,
        e.duration_frames,
        e.content,
        e.text_style,
        e.transform,
    );
    let clips = last.tracks[ti].clips.push(clip);
    law_sorting(clips);
    assert(clips.last() == clip);
    assert(clips.contains(clip));
    assert(clips.to_multiset().count(clip) > 0) by {
        clips.to_multiset_ensures();
    }
    by_start(clips).to_multiset_ensures();
    let after = texts_placed(t, entries, cleared, ids, n)->0;
    assert(after.tracks[ti].clips == by_start(clips));
}

/// Checks text overlays for given tracks. Each entry's region is to be cleared,
/// then [`place_text`] puts the text there, entry after entry.
pub fn check_texts(state: &EditorState, entries: &Vec<TextEntry>) -> (r: Result<(), EditError>)
    ensures
        verdict(r) == (if entries@.len() == 0 {
            Some(Fault::Invalid("Missing or empty 'entries' array"@))
        } else {
            invalid_if(text_entries_fault(state@.timeline, text_entry_views(entries@), 0))
        }),
{
    if entries.len() == 0 {
        return Err(invalid("Missing or empty 'entries' array"));
    }
    let ghost views = text_entry_views(entries@);
    let ghost t = state@.timeline;
    let mut i: usize = 0;
    while i < entries.len()
        invariant
            i <= entries@.len(),
            entries@.len() > 0,
            views == text_entry_views(entries@),
            t == state@.timeline,
            text_entries_fault(t, views, 0) == text_entries_fault(t, views, i as int),
        decreases entries@.len() - i,
    {
        let e = &entries[i];
        proof {
            lemma_timeline_parts(state.timeline, e.track_index as int, 0);
        }
        if e.track_index >= state.timeline.tracks.len() {
            let label = label_entry(i);
            let index = usize_to_text(e.track_index);
            return Err(
                EditError::Invalid(
                    cat4(label.as_str(), ": track index ", index.as_str(), " out of range"),
                ),
            );
        }
        if !ClipType::Text.is_compatible(state.timeline.tracks[e.track_index].kind) {
            let label = label_entry(i);
            let index = usize_to_text(e.track_index);
            return Err(
                EditError::Invalid(
                    cat4(
                        label.as_str(),
                        ": track ",
                        index.as_str(),
                        " is an audio track; text requires a visual track",
                    ),
                ),
            );
        }
        if let Err(e) = check_text_span(e.start_frame, e.duration_frames, i) {
            return Err(e);
        }
        i += 1;
    }
    Ok(())
}

/// Puts a text on a track whose region was cleared, and returns its clip's id.
pub fn place_text(
    timeline: &mut Timeline,
    track_index: usize,
    start_frame: i32,
    duration_frames: i32,
    content: &String,
    text_style: &Setting,
    transform: Transform,
    ids: &mut CoreIdGen,
) -> (r: String)
    requires
        track_index < old(timeline).tracks@.len(),
    ensures
        final(timeline)@ == with_new_clip(
            old(timeline)@,
            track_index as int,
            text_clip(
                nth_id(old(ids)@, 1),
                start_frame,
                duration_frames,
                content@,
                text_style@,
                transform,
            ),
        ),
        final(timeline).tracks@.len() == old(timeline).tracks@.len(),
        r@ == nth_id(old(ids)@, 1),
        final(ids)@ == ids_after(old(ids)@, 1),
{
    let id = ids.next_id();
    let clip = build_text_clip(
        id.clone(),
        start_frame,
        duration_frames,
        content,
        text_style,
        transform,
    );
    add_clip_to_track(timeline, track_index, clip);
    id
}

fn summarize_texts(added: &Vec<String>) -> (r: String)
    ensures
        r@ == added_texts_summary(texts(added@)),
{
    let count = usize_to_text(added.len());
    let list = join(added, ", ");
    cat4("Added ", count.as_str(), " text clip(s): ", list.as_str())
}

fn put_texts(
    timeline: &Timeline,
    entries: &Vec<TextEntry>,
    cleared: &Vec<Timeline>,
    new_ids: &Vec<String>,
    Ghost(ids): Ghost<IdsView>,
) -> (r: Option<Timeline>)
    requires
        texts(new_ids@) == minted(entries@.len(), ids),
        new_ids@.len() == entries@.len(),
    ensures
        ({
            let after = texts_placed(
                timeline@,
                text_entry_views(entries@),
                timeline_views(cleared@),
                ids,
                entries@.len() as int,
            );
            match r {
                Some(t) => after == Some(t@),
                None => after is None,
            }
        }),
{
    let ghost views = text_entry_views(entries@);
    let ghost clearings = timeline_views(cleared@);
    let mut current = timeline.copy();
    let mut i: usize = 0;
    while i < entries.len()
        invariant
            i <= entries@.len(),
            views == text_entry_views(entries@),
            clearings == timeline_views(cleared@),
            texts(new_ids@) == minted(entries@.len(), ids),
            new_ids@.len() == entries@.len(),
            texts_placed(timeline@, views, clearings, ids, i as int) == Some(current@),
        decreases entries@.len() - i,
    {
        let e = &entries[i];
        let ghost next = texts_placed(timeline@, views, clearings, ids, i + 1);
        proof {
            assert(views[i as int] == e@);
            lemma_timeline_parts(current, e.track_index as int, 0);
            assert(texts(new_ids@)[i as int] == new_ids@[i as int]@);
        }
        if i >= cleared.len() || e.track_index >= current.tracks.len() {
            proof {
                assert(next is None);
                lemma_texts_lost(timeline@, views, clearings, ids, i + 1, entries@.len() as int);
            }
            return None;
        }
        assert(clearings[i as int] == cleared@[i as int]@);
        match find_track(&cleared[i].tracks, current.tracks[e.track_index].id.as_str()) {
            None => {
                proof {
                    assert(next is None);
                    lemma_texts_lost(timeline@, views, clearings, ids, i + 1, entries@.len() as int);
                }
                return None;
            },
            Some(ti) => {
                let clip = build_text_clip(
                    new_ids[i].clone(),
                    e.start_frame,
                    e.duration_frames,
                    &e.content,
                    &e.text_style,
                    e.transform,
                );
                let mut placed = cleared[i].copy();
                proof {
                    lemma_timeline_parts(cleared@[i as int], ti as int, 0);
                    assert(placed@.tracks.len() == placed.tracks@.len());
                    assert(cleared@[i as int]@.tracks.len() == cleared@[i as int].tracks@.len());
                }
                add_clip_to_track(&mut placed, ti, clip);
                current = placed;
            },
        }
        i += 1;
    }
    Some(current)
}

proof fn lemma_texts_lost(
    t: TimelineView,
    entries: Seq<TextEntryView>,
    cleared: Seq<TimelineView>,
    ids: IdsView,
    i: int,
    n: int,
)
    requires
        1 <= i <= n,
        texts_placed(t, entries, cleared, ids, i) is None,
    ensures
        texts_placed(t, entries, cleared, ids, n) is None,
    decreases n - i,
{
    if i < n {
        lemma_texts_lost(t, entries, cleared, ids, i + 1, n);
    }
}

fn settle_texts(
    state: &mut EditorState,
    timeline: &Timeline,
    entries: &Vec<TextEntry>,
    cleared: &Vec<Timeline>,
    ids: &mut CoreIdGen,
    registry_fault: &Option<String>,
) -> (r: Result<EditResult, EditError>)
    requires
        old(state)@.version < u64::MAX,
        entries@.len() > 0,
    ensures
        (outcome(r), final(state)@) == transacted(
            old(state)@,
            add_text_action(entries@.len()),
            added_texts_summary(minted(entries@.len(), old(ids)@)),
            texts_work(
                old(state)@,
                timeline@,
                text_entry_views(entries@),
                timeline_views(cleared@),
                old(ids)@,
            ),
            opt_text(*registry_fault),
        ),
        final(ids)@ == ids_after(old(ids)@, entries@.len() as int),
{
    let ghost first = ids@;
    let new_ids = mint(entries.len(), ids);
    let summary = summarize_texts(&new_ids);
    let work = match put_texts(timeline, entries, cleared, &new_ids, Ghost(first)) {
        Some(timeline) => Ok(
            Work { timeline, manifest: state.manifest.copy(), affected: new_ids },
        ),
        None => Err(lost_track()),
    };
    transact(
        state,
        if entries.len() == 1 {
            "Add Text"
        } else {
            "Add Texts"
        },
        summary.as_str(),
        work,
        registry_fault,
    )
}

/// Adds text overlays. `cleared` holds, for each entry, the timeline that clearing its
/// region gave once the entries before it had been placed.
pub fn add_texts(
    state: &mut EditorState,
    entries: Vec<TextEntry>,
    ids: &mut CoreIdGen,
    cleared: &Vec<Timeline>,
    registry_fault: &Option<String>,
) -> (r: Result<EditResult, EditError>)
    requires
        old(state)@.version < u64::MAX,
    ensures
        (outcome(r), final(state)@) == add_texts_spec(
            old(state)@,
            text_entry_views(entries@),
            old(ids)@,
            timeline_views(cleared@),
            opt_text(*registry_fault),
        ),
        final(ids)@ == (if entries@.len() == 0 || text_entries_fault(
            old(state)@.timeline,
            text_entry_views(entries@),
            0,
        ) is Some {
            old(ids)@
        } else {
            ids_spent(old(state)@, old(ids)@, entries@.len() as int)
        }),
{
    if let Err(e) = check_texts(state, &entries) {
        return Err(e);
    }
    if let Err(e) = validate_timeline_frame_arithmetic(&state.timeline, "timeline") {
        return Err(e);
    }
    let timeline = state.timeline.copy();
    settle_texts(state, &timeline, &entries, cleared, ids, registry_fault)
}

/// The first complaint, from `from` on, against texts for a fresh track.
pub open spec fn auto_texts_fault(entries: Seq<TextAutoTrackEntryView>, from: int) -> Option<
    Seq<char>,
>
    decreases entries.len() - from,
{
    if from < 0 || from >= entries.len() {
        None
    } else {
        match text_span_fault(entries[from].start_frame, entries[from].duration_frames, from) {
            Some(m) => Some(m),
            None => auto_texts_fault(entries, from + 1),
        }
    }
}

/// Texts for a fresh track as entries for the track on top.
pub open spec fn on_top(entries: Seq<TextAutoTrackEntryView>) -> Seq<TextEntryView> {
    entries.map_values(
        |e: TextAutoTrackEntryView|
            TextEntryView {
                track_index: 0,
                start_frame: e.start_frame,
                duration_frames: e.duration_frames,
                content: e.content,
                text_style: e.text_style,
                transform: e.transform,
            },
    )
}

/// A timeline with a fresh video track on top.
pub open spec fn with_top_track(t: TimelineView, id: Seq<char>) -> TimelineView {
    TimelineView { tracks: t.tracks.insert(0, fresh_track(id, ClipType::Video)), ..t }
}

/// Adding text overlays on a fresh track: each is put on the timeline that clearing its
/// region on that track gave.
pub open spec fn add_texts_auto_track_spec(
    s: StateView,
    entries: Seq<TextAutoTrackEntryView>,
    ids: IdsView,
    cleared: Seq<TimelineView>,
    registry_fault: Option<Seq<char>>,
) -> (Result<EditResultView, Fault>, StateView) {
    if entries.len() == 0 {
        (Err(Fault::Invalid("Missing or empty 'entries' array"@)), s)
    } else if auto_texts_fault(entries, 0) is Some {
        (Err(Fault::Invalid(auto_texts_fault(entries, 0)->0)), s)
    } else {
        transacted(
            s,
            add_text_action(entries.len()),
            added_texts_summary(minted(entries.len(), ids_after(ids, 1))),
            texts_work(
                s,
                with_top_track(s.timeline, nth_id(ids, 1)),
                on_top(entries),
                cleared,
                ids_after(ids, 1),
            ),
            registry_fault,
        )
    }
}

/// Checks texts for a fresh track. They go on the track that [`add_top_track`]
/// adds; each entry's region on it is to be cleared before [`place_text`], so that
/// a later entry wins over an earlier one.
pub fn check_auto_texts(entries: &Vec<TextAutoTrackEntry>) -> (r: Result<(), EditError>)
    ensures
        verdict(r) == (if entries@.len() == 0 {
            Some(Fault::Invalid("Missing or empty 'entries' array"@))
        } else {
            invalid_if(auto_texts_fault(text_auto_track_entry_views(entries@), 0))
        }),
{
    if entries.len() == 0 {
        return Err(invalid("Missing or empty 'entries' array"));
    }
    let ghost views = text_auto_track_entry_views(entries@);
    let mut i: usize = 0;
    while i < entries.len()
        invariant
            i <= entries@.len(),
            entries@.len() > 0,
            views == text_auto_track_entry_views(entries@),
            auto_texts_fault(views, 0) == auto_texts_fault(views, i as int),
        decreases entries@.len() - i,
    {
        if let Err(e) = check_text_span(entries[i].start_frame, entries[i].duration_frames, i) {
            return Err(e);
        }
        i += 1;
    }
    Ok(())
}

/// Puts a fresh video track on top of a timeline.
pub fn add_top_track(timeline: &mut Timeline, ids: &mut CoreIdGen)
    ensures
        final(timeline)@ == with_top_track(old(timeline)@, nth_id(old(ids)@, 1)),
        final(timeline).tracks@.len() == old(timeline).tracks@.len() + 1,
        final(ids)@ == ids_after(old(ids)@, 1),
{
    let ghost before = *timeline;
    let track = Track::new(ids.next_id(), ClipType::Video);
    timeline.tracks.insert(0, track);
    proof {
        lemma_tracks_replaced(before, *timeline);
        assert(timeline@.tracks =~= before@.tracks.insert(0, track@));
    }
}

fn put_on_top(entries: &Vec<TextAutoTrackEntry>) -> (r: Vec<TextEntry>)
    ensures
        text_entry_views(r@) == on_top(text_auto_track_entry_views(entries@)),
        r@.len() == entries@.len(),
{
    let ghost expected = on_top(text_auto_track_entry_views(entries@));
    let mut out: Vec<TextEntry> = Vec::new();
    let mut i: usize = 0;
    while i < entries.len()
        invariant
            i <= entries@.len(),
            out@.len() == i,
            expected == on_top(text_auto_track_entry_views(entries@)),
            forall|k: int| 0 <= k < i ==> (#[trigger] out@[k])@ == expected[k],
        decreases entries@.len() - i,
    {
        let e = &entries[i];
        out.push(
            TextEntry {
                track_index: 0,
                start_frame: e.start_frame,
                duration_frames: e.duration_frames,
                content: e.content.clone(),
                text_style: e.text_style.clone(),
                transform: e.transform,
            },
        );
        i += 1;
    }
    assert(text_entry_views(out@) =~= expected);
    out
}

/// Adds text overlays on one fresh video track. `cleared` holds, for each entry, the
/// timeline that clearing its region on that track gave once the entries before it had
/// been placed.
pub fn add_texts_auto_track(
    state: &mut EditorState,
    entries: Vec<TextAutoTrackEntry>,
    ids: &mut CoreIdGen,
    cleared: &Vec<Timeline>,
    registry_fault: &Option<String>,
) -> (r: Result<EditResult, EditError>)
    requires
        old(state)@.version < u64::MAX,
    ensures
        (outcome(r), final(state)@) == add_texts_auto_track_spec(
            old(state)@,
            text_auto_track_entry_views(entries@),
            old(ids)@,
            timeline_views(cleared@),
            opt_text(*registry_fault),
        ),
        final(ids)@ == (if entries@.len() == 0 || auto_texts_fault(
            text_auto_track_entry_views(entries@),
            0,
        ) is Some {
            old(ids)@
        } else {
            ids_spent(old(state)@, old(ids)@, entries@.len() as int + 1)
        }),
{
    if let Err(e) = check_auto_texts(&entries) {
        return Err(e);
    }
    if let Err(e) = validate_timeline_frame_arithmetic(&state.timeline, "timeline") {
        return Err(e);
    }
    proof {
        lemma_ids_after(ids@, 1, entries@.len() as int);
    }
    let mut timeline = state.timeline.copy();
    add_top_track(&mut timeline, ids);
    let placed = put_on_top(&entries);
    settle_texts(state, &timeline, &placed, cleared, ids, registry_fault)
}

/// Accepting translations changes the text of captions and where it came from, and
/// nothing else: every clip keeps its track, its identity, its timing and its group.
pub proof fn law_translation_keeps_all_but_text(
    t: TimelineView,
    changes: Seq<CaptionTranslationChangeView>,
    n: int,
    i: int,
    j: int,
)
    requires
        0 <= i < t.tracks.len(),
        0 <= j < t.tracks[i].clips.len(),
    ensures
        ({
            let next = translated(t, changes, n);
            &&& next.tracks.len() == t.tracks.len()
            &&& next.tracks[i].clips.len() == t.tracks[i].clips.len()
            &&& next.tracks[i] == (TrackView { clips: next.tracks[i].clips, ..t.tracks[i] })
            &&& next.tracks[i].clips[j] == (ClipView {
                text_content: next.tracks[i].clips[j].text_content,
                caption_translation_input: next.tracks[i].clips[j].caption_translation_input,
                ..t.tracks[i].clips[j]
            })
        }),
    decreases n,
{
    if n > 0 {
        law_translation_keeps_all_but_text(t, changes, n - 1, i, j);
        let before = translated(t, changes, n - 1);
        lemma_located(before, changes[n - 1].clip_id, 0);
    }
}

/// Captions go on a track of their own on top: every other track is what it would be
/// after any edit, only further down.
pub proof fn law_captions_leave_other_tracks(
    s: StateView,
    entries: Seq<CaptionEntryView>,
    ids: IdsView,
    registry_fault: Option<Seq<char>>,
    i: int,
)
    requires
        0 <= i < s.timeline.tracks.len(),
        entries.len() > 0,
        add_captions_spec(s, entries, ids, registry_fault).0 is Ok,
    ensures
        ({
            let next = add_captions_spec(s, entries, ids, registry_fault).1.timeline;
            next.tracks.len() == s.timeline.tracks.len() + 1 && next.tracks[i + 1]
                == pruned_track(s.timeline.tracks[i])
        }),
{
}

} // verus!
