//! The editor's state: the document, its history and its version; and the
//! transaction that every edit goes through.

use crate::alike::alike;
use crate::alike::alike_library;
use crate::edit::outcome;
use crate::edit::EditError;
use crate::edit::EditResult;
use crate::edit::EditResultView;
use crate::edit::Fault;
use crate::frames::timeline_fault;
use crate::frames::validate_timeline_frame_arithmetic;
use crate::ids::ids_after;
use crate::ids::IdsView;
use crate::model::MediaManifest;
use crate::model::MediaManifestView;
use crate::model::Timeline;
use crate::model::TimelineView;
use crate::text::opt_text;
use crate::text::texts;
use crate::transitions::lemma_timeline_sound;
use crate::transitions::prune_invalid_transitions;
use crate::transitions::pruned;
use vstd::prelude::*;
use vstd::string::StringExecFns;

verus! {

/// A document that history can bring back, with the edit that leads away from it.
#[derive(Debug)]
pub struct HistoryEntry {
    pub timeline: Timeline,
    pub manifest: MediaManifest,
    /// The label of the edit.
    pub action_name: String,
    /// The version that the edit produced.
    pub transaction_version: u64,
}

/// The view of a [`HistoryEntry`].
#[verifier::ext_equal]
pub struct HistoryEntryView {
    pub timeline: TimelineView,
    pub manifest: MediaManifestView,
    pub action_name: Seq<char>,
    pub transaction_version: u64,
}

impl View for HistoryEntry {
    type V = HistoryEntryView;

    open spec fn view(&self) -> HistoryEntryView {
        HistoryEntryView {
            timeline: self.timeline@,
            manifest: self.manifest@,
            action_name: self.action_name@,
            transaction_version: self.transaction_version,
        }
    }
}

impl HistoryEntry {
    /// A copy of the value.
    pub fn copy(&self) -> (r: HistoryEntry)
        ensures
            r@ == self@,
    {
        HistoryEntry {
            timeline: self.timeline.copy(),
            manifest: self.manifest.copy(),
            action_name: self.action_name.clone(),
            transaction_version: self.transaction_version,
        }
    }
}

/// The views of a list of [`HistoryEntry`].
pub open spec fn history_views(v: Seq<HistoryEntry>) -> Seq<HistoryEntryView> {
    v.map_values(|x: HistoryEntry| x@)
}

fn copy_history(v: &Vec<HistoryEntry>) -> (r: Vec<HistoryEntry>)
    ensures
        history_views(r@) == history_views(v@),
{
    let mut out: Vec<HistoryEntry> = Vec::new();
    let mut i: usize = 0;
    while i < v.len()
        invariant
            i <= v@.len(),
            out@.len() == i,
            forall|j: int| 0 <= j < i ==> (#[trigger] out@[j])@ == v@[j]@,
        decreases v@.len() - i,
    {
        out.push(v[i].copy());
        i += 1;
    }
    assert(history_views(out@) =~= history_views(v@));
    out
}

/// The document with its undo and redo history and its version.
#[derive(Debug)]
pub struct EditorState {
    pub timeline: Timeline,
    pub manifest: MediaManifest,
    /// Documents to go back to, the latest last.
    pub undo_stack: Vec<HistoryEntry>,
    /// Documents to go forward to, the nearest last.
    pub redo_stack: Vec<HistoryEntry>,
    /// Counts the changes of the document.
    pub version: u64,
}

/// The view of an [`EditorState`].
#[verifier::ext_equal]
pub struct StateView {
    pub timeline: TimelineView,
    pub manifest: MediaManifestView,
    pub undo_stack: Seq<HistoryEntryView>,
    pub redo_stack: Seq<HistoryEntryView>,
    pub version: u64,
}

impl View for EditorState {
    type V = StateView;

    open spec fn view(&self) -> StateView {
        StateView {
            timeline: self.timeline@,
            manifest: self.manifest@,
            undo_stack: history_views(self.undo_stack@),
            redo_stack: history_views(self.redo_stack@),
            version: self.version,
        }
    }
}

/// The state after an edit that led from document `s` to the given one.
pub open spec fn committed(
    s: StateView,
    timeline: TimelineView,
    manifest: MediaManifestView,
    action: Seq<char>,
) -> StateView {
    StateView {
        timeline,
        manifest,
        undo_stack: s.undo_stack.push(
            HistoryEntryView {
                timeline: s.timeline,
                manifest: s.manifest,
                action_name: action,
                transaction_version: (s.version + 1) as u64,
            },
        ),
        redo_stack: Seq::empty(),
        version: (s.version + 1) as u64,
    }
}

/// The state with another label on the edit that undo would take back.
pub open spec fn top_labelled(s: StateView, action: Seq<char>) -> StateView {
    if s.undo_stack.len() == 0 {
        s
    } else {
        StateView {
            undo_stack: s.undo_stack.drop_last().push(
                HistoryEntryView { action_name: action, ..s.undo_stack.last() },
            ),
            ..s
        }
    }
}

/// The state after one step back; the same state where there is no history.
pub open spec fn undone(s: StateView) -> StateView {
    if s.undo_stack.len() == 0 {
        s
    } else {
        let e = s.undo_stack.last();
        StateView {
            timeline: e.timeline,
            manifest: e.manifest,
            undo_stack: s.undo_stack.drop_last(),
            redo_stack: s.redo_stack.push(
                HistoryEntryView { timeline: s.timeline, manifest: s.manifest, ..e },
            ),
            version: (s.version + 1) as u64,
        }
    }
}

/// The state after one step forward; the same state where nothing was undone.
pub open spec fn redone(s: StateView) -> StateView {
    if s.redo_stack.len() == 0 {
        s
    } else {
        let e = s.redo_stack.last();
        StateView {
            timeline: e.timeline,
            manifest: e.manifest,
            undo_stack: s.undo_stack.push(
                HistoryEntryView { timeline: s.timeline, manifest: s.manifest, ..e },
            ),
            redo_stack: s.redo_stack.drop_last(),
            version: (s.version + 1) as u64,
        }
    }
}

/// Undo after an edit brings the document back, and redo after that the edit.
pub proof fn law_undo_restores_and_redo_repeats(
    s: StateView,
    timeline: TimelineView,
    manifest: MediaManifestView,
    action: Seq<char>,
)
    ensures
        ({
            let edited = committed(s, timeline, manifest, action);
            &&& undone(edited).timeline == s.timeline
            &&& undone(edited).manifest == s.manifest
            &&& undone(edited).undo_stack == s.undo_stack
            &&& redone(undone(edited)).timeline == timeline
            &&& redone(undone(edited)).manifest == manifest
            &&& redone(undone(edited)).undo_stack == edited.undo_stack
            &&& redone(undone(edited)).redo_stack == edited.redo_stack
        }),
{
    let edited = committed(s, timeline, manifest, action);
    assert(edited.undo_stack.drop_last() =~= s.undo_stack);
    let back = undone(edited);
    assert(back.redo_stack.drop_last() =~= edited.redo_stack);
    assert(redone(back).undo_stack =~= edited.undo_stack);
}

/// Redo takes back whatever undo did, at any point of the history.
pub proof fn law_redo_inverts_undo(s: StateView)
    requires
        s.undo_stack.len() > 0,
    ensures
        redone(undone(s)).timeline == s.timeline,
        redone(undone(s)).manifest == s.manifest,
        redone(undone(s)).undo_stack == s.undo_stack,
        redone(undone(s)).redo_stack == s.redo_stack,
{
    let back = undone(s);
    assert(back.redo_stack.drop_last() =~= s.redo_stack);
    assert(redone(back).undo_stack =~= s.undo_stack);
}

impl EditorState {
    /// A state with a document and no history.
    pub fn new(timeline: Timeline, manifest: MediaManifest) -> (r: EditorState)
        ensures
            r@ == (StateView {
                timeline: timeline@,
                manifest: manifest@,
                undo_stack: Seq::empty(),
                redo_stack: Seq::empty(),
                version: 0,
            }),
    {
        let r = EditorState {
            timeline,
            manifest,
            undo_stack: Vec::new(),
            redo_stack: Vec::new(),
            version: 0,
        };
        assert(r@.undo_stack =~= Seq::empty());
        assert(r@.redo_stack =~= Seq::empty());
        r
    }

    /// A copy of the state, history and all.
    pub fn copy(&self) -> (r: EditorState)
        ensures
            r@ == self@,
    {
        EditorState {
            timeline: self.timeline.copy(),
            manifest: self.manifest.copy(),
            undo_stack: copy_history(&self.undo_stack),
            redo_stack: copy_history(&self.redo_stack),
            version: self.version,
        }
    }

    /// The document version.
    pub fn version(&self) -> (r: u64)
        ensures
            r == self@.version,
    {
        self.version
    }

    /// How many steps back there are.
    pub fn undo_depth(&self) -> (r: usize)
        ensures
            r == self@.undo_stack.len(),
    {
        self.undo_stack.len()
    }

    /// Whether there is a step back.
    pub fn can_undo(&self) -> (r: bool)
        ensures
            r == (self@.undo_stack.len() > 0),
    {
        self.undo_stack.len() > 0
    }

    /// Whether there is a step forward.
    pub fn can_redo(&self) -> (r: bool)
        ensures
            r == (self@.redo_stack.len() > 0),
    {
        self.redo_stack.len() > 0
    }

    /// The label of the edit that undo would take back.
    pub fn undo_action_name(&self) -> (r: Option<String>)
        ensures
            opt_text(r) == (if self@.undo_stack.len() > 0 {
                Some(self@.undo_stack.last().action_name)
            } else {
                None
            }),
    {
        if self.undo_stack.len() > 0 {
            Some(self.undo_stack[self.undo_stack.len() - 1].action_name.clone())
        } else {
            None
        }
    }

    /// The version that the edit on top of the history produced.
    pub fn undo_transaction_version(&self) -> (r: Option<u64>)
        ensures
            r == (if self@.undo_stack.len() > 0 {
                Some(self@.undo_stack.last().transaction_version)
            } else {
                None
            }),
    {
        if self.undo_stack.len() > 0 {
            Some(self.undo_stack[self.undo_stack.len() - 1].transaction_version)
        } else {
            None
        }
    }

    /// Moves on to another document and records the edit that led there.
    pub fn commit(&mut self, timeline: Timeline, manifest: MediaManifest, action_name: &str)
        requires
            old(self)@.version < u64::MAX,
        ensures
            final(self)@ == committed(old(self)@, timeline@, manifest@, action_name@),
    {
        let ghost s = self@;
        let mut old_timeline = timeline;
        let mut old_manifest = manifest;
        std::mem::swap(&mut self.timeline, &mut old_timeline);
        std::mem::swap(&mut self.manifest, &mut old_manifest);
        self.version = self.version + 1;
        self.undo_stack.push(
            HistoryEntry {
                timeline: old_timeline,
                manifest: old_manifest,
                action_name: String::from_str(action_name),
                transaction_version: self.version,
            },
        );
        self.redo_stack = Vec::new();
        let ghost e = committed(s, timeline@, manifest@, action_name@);
        assert(self@.undo_stack =~= e.undo_stack);
        assert(self@.redo_stack =~= e.redo_stack);
    }

    /// Puts another label on the edit that undo would take back.
    pub fn relabel_top(&mut self, action_name: &str)
        ensures
            final(self)@ == top_labelled(old(self)@, action_name@),
    {
        let ghost s = self@;
        match self.undo_stack.pop() {
            None => {
                assert(self@.undo_stack =~= s.undo_stack);
            },
            Some(entry) => {
                let mut entry = entry;
                entry.action_name = String::from_str(action_name);
                self.undo_stack.push(entry);
                assert(self@.undo_stack =~= top_labelled(s, action_name@).undo_stack);
            },
        }
    }

    /// Counts a change that cannot be taken back: nothing before it can be
    /// reached through the history any more.
    pub fn commit_irreversible(&mut self)
        requires
            old(self)@.version < u64::MAX,
        ensures
            final(self)@ == (StateView {
                undo_stack: Seq::empty(),
                redo_stack: Seq::empty(),
                version: (old(self)@.version + 1) as u64,
                ..old(self)@
            }),
    {
        self.undo_stack = Vec::new();
        self.redo_stack = Vec::new();
        self.version = self.version + 1;
        assert(self@.undo_stack =~= Seq::empty());
        assert(self@.redo_stack =~= Seq::empty());
    }

    /// Takes one step back; tells whether there was one.
    pub fn undo(&mut self) -> (r: bool)
        requires
            old(self)@.version < u64::MAX,
        ensures
            final(self)@ == undone(old(self)@),
            r == (old(self)@.undo_stack.len() > 0),
    {
        let ghost s = self@;
        match self.undo_stack.pop() {
            None => {
                assert(self@.undo_stack =~= s.undo_stack);
                false
            },
            Some(entry) => {
                let mut entry = entry;
                std::mem::swap(&mut self.timeline, &mut entry.timeline);
                std::mem::swap(&mut self.manifest, &mut entry.manifest);
                self.redo_stack.push(entry);
                self.version = self.version + 1;
                assert(self@.undo_stack =~= undone(s).undo_stack);
                assert(self@.redo_stack =~= undone(s).redo_stack);
                true
            },
        }
    }

    /// Takes one step forward; tells whether there was one.
    pub fn redo(&mut self) -> (r: bool)
        requires
            old(self)@.version < u64::MAX,
        ensures
            final(self)@ == redone(old(self)@),
            r == (old(self)@.redo_stack.len() > 0),
    {
        let ghost s = self@;
        match self.redo_stack.pop() {
            None => {
                assert(self@.redo_stack =~= s.redo_stack);
                false
            },
            Some(entry) => {
                let mut entry = entry;
                std::mem::swap(&mut self.timeline, &mut entry.timeline);
                std::mem::swap(&mut self.manifest, &mut entry.manifest);
                self.undo_stack.push(entry);
                self.version = self.version + 1;
                assert(self@.undo_stack =~= redone(s).undo_stack);
                assert(self@.redo_stack =~= redone(s).redo_stack);
                true
            },
        }
    }
}

/// What the work of a command makes of the document, and the clips it touched.
#[derive(Debug)]
pub struct Work {
    pub timeline: Timeline,
    pub manifest: MediaManifest,
    pub affected: Vec<String>,
}

/// The view of a [`Work`].
#[verifier::ext_equal]
pub struct WorkView {
    pub timeline: TimelineView,
    pub manifest: MediaManifestView,
    pub affected: Seq<Seq<char>>,
}

impl View for Work {
    type V = WorkView;

    open spec fn view(&self) -> WorkView {
        WorkView {
            timeline: self.timeline@,
            manifest: self.manifest@,
            affected: texts(self.affected@),
        }
    }
}

/// What the engines that place and move clips made of a timeline, and the clips that
/// they made or touched. The media library is none of theirs.
#[derive(Debug)]
pub struct Placed {
    pub timeline: Timeline,
    pub affected: Vec<String>,
}

/// The view of a [`Placed`].
#[verifier::ext_equal]
pub struct PlacedView {
    pub timeline: TimelineView,
    pub affected: Seq<Seq<char>>,
}

impl View for Placed {
    type V = PlacedView;

    open spec fn view(&self) -> PlacedView {
        PlacedView { timeline: self.timeline@, affected: texts(self.affected@) }
    }
}

/// The view of the outcome of a command's work.
pub open spec fn work_view(w: Result<Work, EditError>) -> Result<WorkView, Fault> {
    match w {
        Ok(x) => Ok(x@),
        Err(e) => Err(e@),
    }
}

/// What a command reports.
pub open spec fn report(
    timeline_changed: bool,
    manifest_changed: bool,
    action: Seq<char>,
    affected: Seq<Seq<char>>,
    version: u64,
    summary: Seq<char>,
) -> EditResultView {
    EditResultView {
        changed: timeline_changed || manifest_changed,
        timeline_changed,
        manifest_changed,
        action_name: action,
        affected_clip_ids: affected,
        timeline_version: version,
        summary,
    }
}

/// A transaction: what it returns and the state it leaves. The document is
/// checked before and after the work, transitions are pruned, the nested-sequence
/// registry may be found at fault, and only a changed document is committed. One that
/// compares equal to the document before it takes its place without a step of history.
/// A transaction that fails leaves the state as it was.
pub open spec fn transacted(
    s: StateView,
    action: Seq<char>,
    summary: Seq<char>,
    work: Result<WorkView, Fault>,
    registry_fault: Option<Seq<char>>,
) -> (Result<EditResultView, Fault>, StateView) {
    match timeline_fault(s.timeline, "timeline"@) {
        Some(m) => (Err(Fault::Invalid(m)), s),
        None => match work {
            Err(f) => (Err(f), s),
            Ok(w) => match timeline_fault(w.timeline, "timeline"@) {
                Some(m) => (Err(Fault::Invalid(m)), s),
                None => match registry_fault {
                    Some(m) => (Err(Fault::Invalid(m)), s),
                    None => {
                        let after = pruned(w.timeline);
                        let timeline_changed = !alike(s.timeline, after);
                        let manifest_changed = !alike_library(s.manifest, w.manifest);
                        let next = if timeline_changed || manifest_changed {
                            committed(s, after, w.manifest, action)
                        } else {
                            StateView { timeline: after, manifest: w.manifest, ..s }
                        };
                        (
                            Ok(
                                report(
                                    timeline_changed,
                                    manifest_changed,
                                    action,
                                    w.affected,
                                    next.version,
                                    summary,
                                ),
                            ),
                            next,
                        )
                    },
                },
            },
        },
    }
}

/// A transaction that fails leaves document, history and version alone.
pub proof fn law_failed_transaction_changes_nothing(
    s: StateView,
    action: Seq<char>,
    summary: Seq<char>,
    work: Result<WorkView, Fault>,
    registry_fault: Option<Seq<char>>,
)
    requires
        transacted(s, action, summary, work, registry_fault).0 is Err,
    ensures
        transacted(s, action, summary, work, registry_fault).1 == s,
{
}

/// The nested-sequence registry has the last word on a transaction: one that would have
/// succeeded fails with its complaint and leaves the state as it was, and one that would
/// have failed fails as it would have.
pub proof fn law_registry_has_the_last_word(
    s: StateView,
    action: Seq<char>,
    summary: Seq<char>,
    work: Result<WorkView, Fault>,
    complaint: Seq<char>,
)
    ensures
        ({
            let unasked = transacted(s, action, summary, work, None);
            transacted(s, action, summary, work, Some(complaint)) == (match unasked.0 {
                Ok(_) => (Err::<EditResultView, Fault>(Fault::Invalid(complaint)), s),
                Err(f) => (Err::<EditResultView, Fault>(f), s),
            })
        }),
{
}

/// The version moves, and a step back appears, exactly when the document changes.
pub proof fn law_version_moves_with_the_document(
    s: StateView,
    action: Seq<char>,
    summary: Seq<char>,
    work: Result<WorkView, Fault>,
    registry_fault: Option<Seq<char>>,
)
    requires
        s.version < u64::MAX,
    ensures
        ({
            let (r, next) = transacted(s, action, summary, work, registry_fault);
            match r {
                Err(_) => next == s,
                Ok(e) => {
                    let changed = !alike(s.timeline, next.timeline) || !alike_library(
                        s.manifest,
                        next.manifest,
                    );
                    &&& next.version == (if changed {
                        s.version + 1
                    } else {
                        s.version as int
                    })
                    &&& next.undo_stack.len() == (if changed {
                        s.undo_stack.len() + 1
                    } else {
                        s.undo_stack.len()
                    })
                    &&& e.changed == changed
                    &&& e.timeline_version == next.version
                },
            }
        }),
{
}

/// Whatever a transaction commits, one undo brings back the document before it.
pub proof fn law_undo_restores_what_a_transaction_changed(
    s: StateView,
    action: Seq<char>,
    summary: Seq<char>,
    work: Result<WorkView, Fault>,
    registry_fault: Option<Seq<char>>,
)
    requires
        transacted(s, action, summary, work, registry_fault).0 matches Ok(e) && e.changed,
    ensures
        ({
            let next = transacted(s, action, summary, work, registry_fault).1;
            &&& undone(next).timeline == s.timeline
            &&& undone(next).manifest == s.manifest
            &&& undone(next).undo_stack == s.undo_stack
        }),
{
    let w = work->Ok_0;
    law_undo_restores_and_redo_repeats(s, pruned(w.timeline), w.manifest, action);
}

/// Builds the report of a command.
pub fn result(
    state: &EditorState,
    timeline_changed: bool,
    manifest_changed: bool,
    action_name: &str,
    affected: Vec<String>,
    summary: &str,
) -> (r: EditResult)
    ensures
        r@ == report(
            timeline_changed,
            manifest_changed,
            action_name@,
            texts(affected@),
            state@.version,
            summary@,
        ),
{
    EditResult {
        changed: timeline_changed || manifest_changed,
        timeline_changed,
        manifest_changed,
        action_name: String::from_str(action_name),
        affected_clip_ids: affected,
        timeline_version: state.version(),
        summary: String::from_str(summary),
    }
}

/// Runs a transaction over what the command's work made of the document.
/// `registry_fault` is what the check of the nested-sequence registry says
/// against the edited timeline, if anything.
pub fn transact(
    state: &mut EditorState,
    action_name: &str,
    summary: &str,
    work: Result<Work, EditError>,
    registry_fault: &Option<String>,
) -> (r: Result<EditResult, EditError>)
    requires
        old(state)@.version < u64::MAX,
    ensures
        (outcome(r), final(state)@) == transacted(
            old(state)@,
            action_name@,
            summary@,
            work_view(work),
            opt_text(*registry_fault),
        ),
{
    if let Err(e) = validate_timeline_frame_arithmetic(&state.timeline, "timeline") {
        return Err(e);
    }
    let work = match work {
        Ok(w) => w,
        Err(e) => return Err(e),
    };
    let Work { timeline: worked, manifest, affected } = work;
    if let Err(e) = validate_timeline_frame_arithmetic(&worked, "timeline") {
        return Err(e);
    }
    proof {
        lemma_timeline_sound(worked@, "timeline"@);
    }
    let mut timeline = worked;
    prune_invalid_transitions(&mut timeline);
    if let Some(reason) = registry_fault {
        return Err(EditError::Invalid(reason.clone()));
    }
    let timeline_changed = !state.timeline.same(&timeline);
    let manifest_changed = !state.manifest.same(&manifest);
    if timeline_changed || manifest_changed {
        state.commit(timeline, manifest, action_name);
    } else {
        state.timeline = timeline;
        state.manifest = manifest;
    }
    Ok(result(state, timeline_changed, manifest_changed, action_name, affected, summary))
}

/// The id generator after a command whose work mints `k` ids: a malformed timeline
/// is rejected before any id is minted.
pub open spec fn ids_spent(s: StateView, ids: IdsView, k: int) -> IdsView {
    if timeline_fault(s.timeline, "timeline"@) is Some {
        ids
    } else {
        ids_after(ids, k)
    }
}

/// A transaction whose work leaves the media library alone.
pub open spec fn timeline_transacted(
    s: StateView,
    action: Seq<char>,
    summary: Seq<char>,
    timeline: TimelineView,
    affected: Seq<Seq<char>>,
    registry_fault: Option<Seq<char>>,
) -> (Result<EditResultView, Fault>, StateView) {
    transacted(
        s,
        action,
        summary,
        Ok(WorkView { timeline, manifest: s.manifest, affected }),
        registry_fault,
    )
}

/// Runs a transaction whose work leaves the media library alone.
pub fn transact_timeline(
    state: &mut EditorState,
    action_name: &str,
    summary: &str,
    timeline: Timeline,
    affected: Vec<String>,
    registry_fault: &Option<String>,
) -> (r: Result<EditResult, EditError>)
    requires
        old(state)@.version < u64::MAX,
    ensures
        (outcome(r), final(state)@) == timeline_transacted(
            old(state)@,
            action_name@,
            summary@,
            timeline@,
            texts(affected@),
            opt_text(*registry_fault),
        ),
{
    let manifest = state.manifest.copy();
    transact(
        state,
        action_name,
        summary,
        Ok(Work { timeline, manifest, affected }),
        registry_fault,
    )
}

} // verus!
