//! Where captions and texts come to stand.

use crate::arrange::by_start;
use crate::arrange::with_new_clip;
use crate::commands::captions::add_captions_spec;
use crate::commands::captions::add_texts_auto_track_spec;
use crate::commands::captions::add_texts_spec;
use crate::commands::captions::apply_caption_translations_spec;
use crate::commands::captions::auto_texts_fault;
use crate::commands::captions::caption_clips;
use crate::commands::captions::captions_fault;
use crate::commands::captions::on_top;
use crate::commands::captions::text_clip;
use crate::commands::captions::text_entries_fault;
use crate::commands::captions::text_placed;
use crate::commands::captions::text_span_fault;
use crate::commands::captions::texts_placed;
use crate::commands::captions::translated;
use crate::commands::captions::translation_fault;
use crate::commands::captions::translations_fault;
use crate::commands::captions::with_top_track;
use crate::entries::CaptionEntryView;
use crate::entries::CaptionTranslationChangeView;
use crate::entries::TextAutoTrackEntryView;
use crate::entries::TextEntryView;
use crate::fresh::fresh_track;
use crate::ids::IdsView;
use crate::ids::ids_after;
use crate::ids::nth_id;
use crate::laws::arranging::law_sorting_is_by_start;
use crate::laws::arranging::reaches;
use crate::laws::arranging::rearranges;
use crate::laws::arranging::sorted_from;
use crate::laws::arranging::start_order;
use crate::laws::arranging::unadorned;
use crate::laws::document::first_clip;
use crate::laws::document::law_clips_are_found_by_id;
use crate::laws::document::law_pruning_changes_transitions_alone;
use crate::laws::document::law_tracks_are_found_by_id;
use crate::laws::document::same_clip;
use crate::laws::document::same_frame;
use crate::laws::document::same_timeline;
use crate::laws::document::same_track;
use crate::laws::effects::lemma_firsts_kept;
use crate::laws::effects::same_layout;
use crate::laws::frames::typed_frames_hold;
use crate::laws::linking::placed_at;
use crate::locate::locate;
use crate::locate::track_index;
use crate::model::ClipType;
use crate::model::ClipView;
use crate::model::Real;
use crate::model::TimelineView;
use crate::model::TrackView;
use crate::state::StateView;
use crate::text::trimmed;
use crate::transitions::pruned;
use vstd::prelude::*;

verus! {

/// Whether a clip is the caption of an entry: a plain text clip over the entry's span,
/// with its content, style, place on the canvas and group.
pub open spec fn shows_caption(c: ClipView, e: CaptionEntryView) -> bool {
    &&& c.media_type is Text
    &&& c.source_clip_type is Text
    &&& c.media_ref.len() == 0
    &&& c.start_frame == e.start_frame
    &&& c.duration_frames == e.duration_frames
    &&& c.text_content == Some(e.content)
    &&& c.text_style == Some(e.text_style)
    &&& c.transform == e.transform
    &&& c.caption_group_id == Some(e.caption_group_id)
    &&& unadorned(c)
}

/// A batch of captions stands on one new video track on top of the others, which holds
/// one caption for each entry, over the entry's own span and with its own content,
/// style, place and group, each under an id of its own, and no other clip; captions
/// come in order of their starts. The other tracks stay as they were.
pub proof fn law_captions_stand_where_they_were_asked_for(
    s: StateView,
    entries: Seq<CaptionEntryView>,
    ids: IdsView,
    registry_fault: Option<Seq<char>>,
)
    requires
        entries.len() > 0,
        add_captions_spec(s, entries, ids, registry_fault).0 is Ok,
    ensures
        ({
            let next = add_captions_spec(s, entries, ids, registry_fault).1;
            let top = next.timeline.tracks[0];
            &&& next.manifest == s.manifest
            &&& same_frame(s.timeline, next.timeline)
            &&& next.timeline.tracks.len() == s.timeline.tracks.len() + 1
            &&& forall|i: int|
                0 <= i < s.timeline.tracks.len() ==> same_track(
                    #[trigger] s.timeline.tracks[i],
                    next.timeline.tracks[i + 1],
                )
            &&& top.id == nth_id(ids, 1)
            &&& top.kind is Video
            &&& !top.muted && !top.hidden && top.sync_locked
            &&& top.clips.len() == entries.len()
            &&& exists|order: Seq<int>| #[trigger]
                rearranges(order, entries.len()) && reaches(order, entries.len()) && forall|j: int|
                    0 <= j < entries.len() ==> shows_caption(
                        #[trigger] top.clips[j],
                        entries[order[j]],
                    ) && top.clips[j].id == nth_id(ids, order[j] + 2)
            &&& forall|i: int, j: int|
                0 <= i < j < top.clips.len() ==> (#[trigger] top.clips[i]).start_frame <= (
                #[trigger] top.clips[j]).start_frame
        }),
{
    let (r, next) = add_captions_spec(s, entries, ids, registry_fault);
    let clips = caption_clips(entries, ids);
    let work = TimelineView {
        tracks: s.timeline.tracks.insert(
            0,
            TrackView {
                clips: by_start(clips),
                ..fresh_track(nth_id(ids, 1), ClipType::Video)
            },
        ),
        ..s.timeline
    };
    assert(next.timeline == pruned(work));
    law_pruning_changes_transitions_alone(work);
    law_sorting_is_by_start(clips);
    let top = next.timeline.tracks[0];
    assert(same_track(work.tracks[0], top));
    assert forall|i: int| 0 <= i < s.timeline.tracks.len() implies same_track(
        #[trigger] s.timeline.tracks[i],
        next.timeline.tracks[i + 1],
    ) by {
        assert(work.tracks[i + 1] == s.timeline.tracks[i]);
    }
    let order = start_order(clips);
    assert(rearranges(order, entries.len()));
    assert forall|j: int| 0 <= j < entries.len() implies shows_caption(
        #[trigger] top.clips[j],
        entries[order[j]],
    ) && top.clips[j].id == nth_id(ids, order[j] + 2) by {
        assert(by_start(clips)[j] == clips[order[j]]);
        assert(by_start(clips)[j].transition_out is None);
        assert(top.clips[j] == by_start(clips)[j]);
    }
}

/// Whether the span of a text holds: it starts at 0 or later, lasts a frame or more and
/// ends within the frame numbers.
pub open spec fn text_span_holds(start: i32, duration: i32) -> bool {
    typed_frames_hold(
        start as int,
        duration as int,
        0,
        0,
        Real { bits: 0x3FF0_0000_0000_0000 },
        ClipType::Text,
    )
}

/// Captions are complained about exactly when the span of one does not hold.
pub proof fn law_caption_spans_are_checked(entries: Seq<CaptionEntryView>, from: int)
    requires
        0 <= from,
    ensures
        captions_fault(entries, from) is None <==> forall|k: int|
            from <= k < entries.len() ==> text_span_holds(
                (#[trigger] entries[k]).start_frame,
                entries[k].duration_frames,
            ),
    decreases entries.len() - from,
{
    if from < entries.len() {
        law_caption_spans_are_checked(entries, from + 1);
        assert((text_span_fault(
            entries[from].start_frame,
            entries[from].duration_frames,
            from,
        ) is None) == text_span_holds(entries[from].start_frame, entries[from].duration_frames));
    }
}

/// Texts are complained about exactly when the track of one is not there or is an audio
/// track, or its span does not hold.
pub proof fn law_text_entries_are_checked(
    t: TimelineView,
    entries: Seq<TextEntryView>,
    autos: Seq<TextAutoTrackEntryView>,
    from: int,
)
    requires
        0 <= from,
    ensures
        text_entries_fault(t, entries, from) is None <==> forall|k: int|
            from <= k < entries.len() ==> (#[trigger] entries[k]).track_index < t.tracks.len()
                && !(t.tracks[entries[k].track_index as int].kind is Audio) && text_span_holds(
                entries[k].start_frame,
                entries[k].duration_frames,
            ),
        auto_texts_fault(autos, from) is None <==> forall|k: int|
            from <= k < autos.len() ==> text_span_holds(
                (#[trigger] autos[k]).start_frame,
                autos[k].duration_frames,
            ),
    decreases entries.len() + autos.len() - from,
{
    if from < entries.len() || from < autos.len() {
        law_text_entries_are_checked(t, entries, autos, from + 1);
        if from < entries.len() {
            assert((text_span_fault(
                entries[from].start_frame,
                entries[from].duration_frames,
                from,
            ) is None) == text_span_holds(
                entries[from].start_frame,
                entries[from].duration_frames,
            ));
        }
        if from < autos.len() {
            assert((text_span_fault(
                autos[from].start_frame,
                autos[from].duration_frames,
                from,
            ) is None) == text_span_holds(autos[from].start_frame, autos[from].duration_frames));
        }
    }
}

/// Whether a clip is the text of an entry: a plain text clip over the entry's span, with
/// its content, style and place on the canvas.
pub open spec fn shows_text(c: ClipView, e: TextEntryView) -> bool {
    &&& c.media_type is Text
    &&& c.source_clip_type is Text
    &&& c.media_ref.len() == 0
    &&& c.start_frame == e.start_frame
    &&& c.duration_frames == e.duration_frames
    &&& c.text_content == Some(e.content)
    &&& c.text_style == Some(e.text_style)
    &&& c.transform == e.transform
    &&& c.caption_group_id is None
    &&& unadorned(c)
}

/// Whether a timeline is another with one clip more on the track at a position, the
/// clips of that track in order of their starts.
pub open spec fn one_clip_more(a: TimelineView, b: TimelineView, ti: int, c: ClipView) -> bool {
    &&& b == (TimelineView { tracks: b.tracks, ..a })
    &&& b.tracks.len() == a.tracks.len()
    &&& 0 <= ti < a.tracks.len()
    &&& forall|i: int| 0 <= i < a.tracks.len() && i != ti ==> #[trigger] b.tracks[i] == a.tracks[i]
    &&& b.tracks[ti] == (TrackView { clips: b.tracks[ti].clips, ..a.tracks[ti] })
    &&& exists|order: Seq<int>|
        sorted_from(a.tracks[ti].clips.push(c), b.tracks[ti].clips, order)
}

/// Placing a clip on a track adds it there, in order, and changes nothing else.
pub proof fn law_a_placed_clip_is_one_more(t: TimelineView, ti: int, c: ClipView)
    requires
        0 <= ti < t.tracks.len(),
    ensures
        one_clip_more(t, with_new_clip(t, ti, c), ti, c),
{
    let clips = t.tracks[ti].clips.push(c);
    law_sorting_is_by_start(clips);
    assert(sorted_from(clips, by_start(clips), start_order(clips)));
}

/// A text goes on the track that it was meant for, known by its id, of the timeline on
/// which its region was cleared, and nothing else changes there. Where that track was
/// lost nothing is placed.
pub proof fn law_texts_go_on_their_track(
    before: TimelineView,
    cleared: TimelineView,
    e: TextEntryView,
    id: Seq<char>,
)
    requires
        e.track_index < before.tracks.len(),
    ensures
        match text_placed(before, cleared, e, id) {
            Some(after) => exists|ti: int, c: ClipView| #[trigger]
                one_clip_more(cleared, after, ti, c) && cleared.tracks[ti].id
                    == before.tracks[e.track_index as int].id && shows_text(c, e) && c.id == id,
            None => forall|i: int|
                0 <= i < cleared.tracks.len() ==> (#[trigger] cleared.tracks[i]).id
                    != before.tracks[e.track_index as int].id,
        },
{
    let wanted = before.tracks[e.track_index as int].id;
    law_tracks_are_found_by_id(cleared.tracks, wanted, 0);
    if let Some(ti) = track_index(cleared.tracks, wanted, 0) {
        let c = text_clip(
            id,
            e.start_frame,
            e.duration_frames,
            e.content,
            e.text_style,
            e.transform,
        );
        law_a_placed_clip_is_one_more(cleared, ti, c);
        assert(shows_text(c, e));
        assert(text_placed(before, cleared, e, id) == Some(with_new_clip(cleared, ti, c)));
        assert(one_clip_more(cleared, text_placed(before, cleared, e, id)->0, ti, c));
    }
}

/// Texts are placed one after the other, each on what clearing its region gave, under an
/// id of its own.
pub proof fn law_texts_are_placed_in_turn(
    t: TimelineView,
    entries: Seq<TextEntryView>,
    cleared: Seq<TimelineView>,
    ids: IdsView,
    n: int,
)
    requires
        0 < n <= entries.len(),
    ensures
        texts_placed(t, entries, cleared, ids, 0) == Some(t),
        texts_placed(t, entries, cleared, ids, n) is Some ==> n <= cleared.len() && texts_placed(
            t,
            entries,
            cleared,
            ids,
            n - 1,
        ) is Some && texts_placed(t, entries, cleared, ids, n) == text_placed(
            texts_placed(t, entries, cleared, ids, n - 1)->0,
            cleared[n - 1],
            entries[n - 1],
            nth_id(ids, n),
        ),
{
}

/// Adding texts is refused, and nothing changed, unless there is one, each is in order and
/// no track was lost; otherwise the timeline on which the last was placed comes in.
pub proof fn law_texts_come_in_whole(
    s: StateView,
    entries: Seq<TextEntryView>,
    autos: Seq<TextAutoTrackEntryView>,
    ids: IdsView,
    cleared: Seq<TimelineView>,
    registry_fault: Option<Seq<char>>,
)
    ensures
        ({
            let (r, next) = add_texts_spec(s, entries, ids, cleared, registry_fault);
            let done = texts_placed(s.timeline, entries, cleared, ids, entries.len() as int);
            &&& r is Err ==> next == s
            &&& r is Ok ==> entries.len() > 0 && text_entries_fault(s.timeline, entries, 0) is None
                && done is Some && next.manifest == s.manifest && same_timeline(
                done->0,
                next.timeline,
            )
        }),
        ({
            let (r, next) = add_texts_auto_track_spec(s, autos, ids, cleared, registry_fault);
            let done = texts_placed(
                with_top_track(s.timeline, nth_id(ids, 1)),
                on_top(autos),
                cleared,
                ids_after(ids, 1),
                autos.len() as int,
            );
            let top = with_top_track(s.timeline, nth_id(ids, 1));
            &&& r is Err ==> next == s
            &&& r is Ok ==> autos.len() > 0 && auto_texts_fault(autos, 0) is None && done is Some
                && next.manifest == s.manifest && same_timeline(done->0, next.timeline)
            &&& top.tracks.len() == s.timeline.tracks.len() + 1
            &&& top.tracks[0].id == nth_id(ids, 1)
            &&& top.tracks[0].kind is Video
            &&& top.tracks[0].clips.len() == 0
            &&& forall|i: int|
                0 <= i < s.timeline.tracks.len() ==> top.tracks[i + 1]
                    == #[trigger] s.timeline.tracks[i]
            &&& forall|k: int|
                0 <= k < autos.len() ==> {
                    let e = #[trigger] on_top(autos)[k];
                    &&& e.track_index == 0
                    &&& e.start_frame == autos[k].start_frame
                    &&& e.duration_frames == autos[k].duration_frames
                    &&& e.content == autos[k].content
                    &&& e.text_style == autos[k].text_style
                    &&& e.transform == autos[k].transform
                }
        }),
{
    let done = texts_placed(s.timeline, entries, cleared, ids, entries.len() as int);
    if done is Some {
        law_pruning_changes_transitions_alone(done->0);
    }
    let whole = texts_placed(
        with_top_track(s.timeline, nth_id(ids, 1)),
        on_top(autos),
        cleared,
        ids_after(ids, 1),
        autos.len() as int,
    );
    if whole is Some {
        law_pruning_changes_transitions_alone(whole->0);
    }
}

/// Whether a reviewed caption may be accepted: no earlier one names its clip, its text is
/// not blank, and the first clip with its id is a caption whose text is the one that was
/// reviewed.
pub open spec fn may_translate(
    t: TimelineView,
    changes: Seq<CaptionTranslationChangeView>,
    i: int,
) -> bool {
    let change = changes[i];
    &&& forall|k: int| 0 <= k < i ==> (#[trigger] changes[k]).clip_id != change.clip_id
    &&& trimmed(change.translated_text).len() > 0
    &&& change.input.source_text == change.expected_source_text
    &&& exists|ti: int, ci: int| #[trigger]
        first_clip(t, change.clip_id, ti, ci) && t.tracks[ti].clips[ci].media_type is Text
            && t.tracks[ti].clips[ci].caption_group_id is Some
            && t.tracks[ti].clips[ci].text_content == Some(change.expected_source_text)
}

proof fn lemma_translations(
    t: TimelineView,
    changes: Seq<CaptionTranslationChangeView>,
    from: int,
)
    requires
        0 <= from,
    ensures
        translations_fault(t, changes, from) is None <==> forall|i: int|
            from <= i < changes.len() ==> #[trigger] may_translate(t, changes, i),
    decreases changes.len() - from,
{
    if from < changes.len() {
        lemma_translations(t, changes, from + 1);
        law_clips_are_found_by_id(t, changes[from].clip_id);
        if let Some((ti, ci)) = locate(t, changes[from].clip_id) {
            assert(first_clip(t, changes[from].clip_id, ti, ci));
        }
        assert((translation_fault(t, changes, from) is None)
            == may_translate(t, changes, from));
    }
}

proof fn lemma_translated(
    t: TimelineView,
    changes: Seq<CaptionTranslationChangeView>,
    n: int,
    ti: int,
    ci: int,
)
    requires
        0 <= n <= changes.len(),
        placed_at(t, ti, ci),
        forall|k: int, l: int|
            0 <= k < l < changes.len() ==> (#[trigger] changes[k]).clip_id != (
            #[trigger] changes[l]).clip_id,
    ensures
        ({
            let u = translated(t, changes, n);
            let c = t.tracks[ti].clips[ci];
            let d = u.tracks[ti].clips[ci];
            &&& u == (TimelineView { tracks: u.tracks, ..t })
            &&& u.tracks.len() == t.tracks.len()
            &&& forall|i: int|
                0 <= i < t.tracks.len() ==> (#[trigger] u.tracks[i]) == (TrackView {
                    clips: u.tracks[i].clips,
                    ..t.tracks[i]
                }) && u.tracks[i].clips.len() == t.tracks[i].clips.len()
            &&& forall|i: int, j: int|
                0 <= i < t.tracks.len() && 0 <= j < t.tracks[i].clips.len() ==> (
                #[trigger] u.tracks[i].clips[j]).id == t.tracks[i].clips[j].id
            &&& forall|k: int|
                0 <= k < n && (#[trigger] changes[k]).clip_id == c.id && first_clip(t, c.id, ti, ci)
                    ==> d == (ClipView {
                    text_content: Some(changes[k].translated_text),
                    caption_translation_input: Some(changes[k].input),
                    ..c
                })
            &&& (!first_clip(t, c.id, ti, ci) || forall|k: int|
                0 <= k < n ==> (#[trigger] changes[k]).clip_id != c.id) ==> d == c
        }),
    decreases n,
{
    if n > 0 {
        lemma_translated(t, changes, n - 1, ti, ci);
        let u = translated(t, changes, n - 1);
        let id = changes[n - 1].clip_id;
        law_clips_are_found_by_id(u, id);
        law_clips_are_found_by_id(t, id);
        lemma_firsts_kept(t, u, id);
        if let Some((x, y)) = locate(u, id) {
            assert(first_clip(u, id, x, y));
            assert(first_clip(t, id, x, y));
        }
    }
}

/// Accepting reviewed captions is refused as a whole, and nothing changed, unless there is
/// one and each may be accepted; otherwise each named caption has its translated text and
/// where it came from, and nothing else of it or of any other clip changes.
pub proof fn law_captions_take_their_translation(
    s: StateView,
    changes: Seq<CaptionTranslationChangeView>,
    registry_fault: Option<Seq<char>>,
    ti: int,
    ci: int,
)
    requires
        placed_at(s.timeline, ti, ci),
    ensures
        ({
            let (r, next) = apply_caption_translations_spec(s, changes, registry_fault);
            let c = s.timeline.tracks[ti].clips[ci];
            let d = next.timeline.tracks[ti].clips[ci];
            &&& r is Err ==> next == s
            &&& r is Ok ==> {
                &&& changes.len() > 0
                &&& forall|i: int|
                    0 <= i < changes.len() ==> #[trigger] may_translate(s.timeline, changes, i)
                &&& next.manifest == s.manifest
                &&& same_layout(s.timeline, next.timeline)
                &&& forall|k: int|
                    0 <= k < changes.len() && (#[trigger] changes[k]).clip_id == c.id && first_clip(
                        s.timeline,
                        c.id,
                        ti,
                        ci,
                    ) ==> d == (ClipView {
                        text_content: Some(changes[k].translated_text),
                        caption_translation_input: Some(changes[k].input),
                        transition_out: d.transition_out,
                        ..c
                    })
                &&& (!first_clip(s.timeline, c.id, ti, ci) || forall|k: int|
                    0 <= k < changes.len() ==> (#[trigger] changes[k]).clip_id != c.id)
                    ==> same_clip(c, d)
            }
        }),
        translations_fault(s.timeline, changes, 0) is None <==> forall|i: int|
            0 <= i < changes.len() ==> #[trigger] may_translate(s.timeline, changes, i),
{
    let t = s.timeline;
    let (r, next) = apply_caption_translations_spec(s, changes, registry_fault);
    lemma_translations(t, changes, 0);
    if r is Ok {
        assert forall|k: int, l: int| 0 <= k < l < changes.len() implies (
        #[trigger] changes[k]).clip_id != (#[trigger] changes[l]).clip_id by {
            assert(may_translate(t, changes, l));
        }
        let work = translated(t, changes, changes.len() as int);
        assert(next.timeline == pruned(work));
        lemma_translated(t, changes, changes.len() as int, ti, ci);
        law_pruning_changes_transitions_alone(work);
        assert forall|i: int| 0 <= i < t.tracks.len() implies (#[trigger] next.timeline.tracks[i])
            == (TrackView { clips: next.timeline.tracks[i].clips, ..t.tracks[i] })
            && next.timeline.tracks[i].clips.len() == t.tracks[i].clips.len() by {
            assert(same_track(work.tracks[i], next.timeline.tracks[i]));
        }
        assert(same_track(work.tracks[ti], next.timeline.tracks[ti]));
    }
}

} // verus!
