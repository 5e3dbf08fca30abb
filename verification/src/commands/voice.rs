//! Cloned voices: enrolling one with its owner's consent, and revoking it. Neither
//! can be undone.

use crate::commands::registration::registered;
use crate::commands::script::byte_length;
use crate::commands::script::count_bytes;
use crate::commands::script::sha256_text;
use crate::commands::script::valid_sha256;
use crate::edit::invalid;
use crate::edit::outcome;
use crate::edit::verdict;
use crate::edit::EditError;
use crate::edit::EditResult;
use crate::edit::EditResultView;
use crate::edit::Fault;
use crate::locate::find_media;
use crate::locate::media_entry;
use crate::model::lemma_nested_views;
use crate::model::voice_model_record_views;
use crate::model::ClipType;
use crate::model::TimelineView;
use crate::model::VoiceModelRecord;
use crate::model::VoiceModelRecordView;
use crate::state::report;
use crate::state::result;
use crate::state::EditorState;
use crate::state::StateView;
use crate::text::cat2;
use crate::text::same_text;
use crate::text::texts;
use crate::text::trim;
use crate::text::trimmed;
use vstd::prelude::*;
use vstd::utf8::encode_utf8;

verus! {

/// Whether a byte is an ASCII letter or digit.
pub open spec fn alphanumeric(b: u8) -> bool {
    48 <= b <= 57 || 65 <= b <= 90 || 97 <= b <= 122
}

/// Whether a byte may stand in a token: a letter, a digit, or one of `-_.:/`.
pub open spec fn token_byte(b: u8) -> bool {
    alphanumeric(b) || b == 45 || b == 95 || b == 46 || b == 58 || b == 47
}

/// Whether a byte may stand in a provider's voice id: a letter, a digit, `-` or
/// `_`.
pub open spec fn voice_id_byte(b: u8) -> bool {
    alphanumeric(b) || b == 45 || b == 95
}

/// Whether a text is a token of at most `max` bytes.
pub open spec fn token(s: Seq<char>, max: nat) -> bool {
    let bytes = encode_utf8(s);
    trimmed(s).len() > 0 && bytes.len() <= max && forall|i: int|
        0 <= i < bytes.len() ==> token_byte(#[trigger] bytes[i])
}

/// Whether a text is a voice id.
pub open spec fn voice_id(s: Seq<char>) -> bool {
    let bytes = encode_utf8(s);
    s.len() > 0 && bytes.len() <= 256 && forall|i: int|
        0 <= i < bytes.len() ==> voice_id_byte(#[trigger] bytes[i])
}

/// Whether the fields of a voice record are in order.
pub open spec fn voice_ok(r: VoiceModelRecordView) -> bool {
    &&& token(r.id, 128)
    &&& token(r.provider, 64)
    &&& voice_id(r.provider_voice_id)
    &&& token(r.model, 256)
    &&& token(r.consent_id, 256)
    &&& token(r.source_audio_asset_id, 256)
    &&& sha256_text(r.source_audio_sha256)
    &&& sha256_text(r.request_hash)
    &&& trimmed(r.voice_name).len() > 0
    &&& byte_length(r.voice_name) <= 128
}

fn is_token(s: &str, max: usize) -> (r: bool)
    ensures
        r == token(s@, max as nat),
{
    let stripped = trim(s);
    let bytes = s.as_bytes();
    if stripped.as_str().is_empty() || bytes.len() > max {
        return false;
    }
    let mut i: usize = 0;
    while i < bytes.len()
        invariant
            i <= bytes@.len(),
            bytes@ == encode_utf8(s@),
            forall|j: int| 0 <= j < i ==> token_byte(#[trigger] bytes@[j]),
        decreases bytes@.len() - i,
    {
        let b: u8 = bytes[i];
        if !((48 <= b && b <= 57) || (65 <= b && b <= 90) || (97 <= b && b <= 122) || b == 45 || b
            == 95 || b == 46 || b == 58 || b == 47) {
            assert(!token_byte(bytes@[i as int]));
            return false;
        }
        i += 1;
    }
    true
}

fn is_voice_id(s: &str) -> (r: bool)
    ensures
        r == voice_id(s@),
{
    let bytes = s.as_bytes();
    if s.is_empty() || bytes.len() > 256 {
        return false;
    }
    let mut i: usize = 0;
    while i < bytes.len()
        invariant
            i <= bytes@.len(),
            bytes@ == encode_utf8(s@),
            forall|j: int| 0 <= j < i ==> voice_id_byte(#[trigger] bytes@[j]),
        decreases bytes@.len() - i,
    {
        let b: u8 = bytes[i];
        if !((48 <= b && b <= 57) || (65 <= b && b <= 90) || (97 <= b && b <= 122) || b == 45 || b
            == 95) {
            assert(!voice_id_byte(bytes@[i as int]));
            return false;
        }
        i += 1;
    }
    true
}

/// Checks a voice record.
pub fn validate_voice_model(record: &VoiceModelRecord) -> (r: Result<(), EditError>)
    ensures
        verdict(r) == (if voice_ok(record@) {
            None
        } else {
            Some(Fault::Invalid("invalid cloned voice metadata"@))
        }),
{
    let name = trim(record.voice_name.as_str());
    if is_token(record.id.as_str(), 128) && is_token(record.provider.as_str(), 64) && is_voice_id(
        record.provider_voice_id.as_str(),
    ) && is_token(record.model.as_str(), 256) && is_token(record.consent_id.as_str(), 256)
        && is_token(record.source_audio_asset_id.as_str(), 256) && valid_sha256(
        record.source_audio_sha256.as_str(),
    ) && valid_sha256(record.request_hash.as_str()) && !name.as_str().is_empty() && count_bytes(
        record.voice_name.as_str(),
    ) <= 128 {
        Ok(())
    } else {
        Err(invalid("invalid cloned voice metadata"))
    }
}

/// Whether two records stand for the same voice.
pub open spec fn same_voice(a: VoiceModelRecordView, b: VoiceModelRecordView) -> bool {
    a.id == b.id || (a.provider == b.provider && a.provider_voice_id == b.provider_voice_id)
}

/// Whether a voice is registered already.
pub open spec fn voice_known(
    voices: Seq<VoiceModelRecordView>,
    r: VoiceModelRecordView,
) -> bool {
    exists|i: int| 0 <= i < voices.len() && same_voice(#[trigger] voices[i], r)
}

/// The complaint against enrolling a voice, if any: its record is in order, its
/// reference is an audio asset, and there is room for a new voice.
pub open spec fn enroll_fault(s: StateView, r: VoiceModelRecordView) -> Option<Seq<char>> {
    if !voice_ok(r) {
        Some("invalid cloned voice metadata"@)
    } else {
        match media_entry(s.manifest, r.source_audio_asset_id) {
            None => Some("voice reference audio does not exist"@),
            Some(source) => {
                if !(source.kind is Audio) || source.has_audio == Some(false) {
                    Some("voice reference must be an audio asset"@)
                } else if voice_known(s.timeline.voice_models, r) {
                    Some("provider voice identity is already registered"@)
                } else if s.timeline.voice_models.len() >= 100 {
                    Some("project voice model limit reached"@)
                } else {
                    None
                }
            },
        }
    }
}

/// The state after a change of the voices that cannot be taken back.
pub open spec fn voices_changed(s: StateView, voices: Seq<VoiceModelRecordView>) -> StateView {
    StateView {
        timeline: TimelineView { voice_models: voices, ..s.timeline },
        undo_stack: Seq::empty(),
        redo_stack: Seq::empty(),
        version: (s.version + 1) as u64,
        ..s
    }
}

/// Enrolling a voice.
pub open spec fn save_voice_model_spec(s: StateView, r: VoiceModelRecordView) -> (
    Result<EditResultView, Fault>,
    StateView,
) {
    if enroll_fault(s, r) is Some {
        (Err(Fault::Invalid(enroll_fault(s, r)->0)), s)
    } else {
        let next = voices_changed(s, s.timeline.voice_models.push(r));
        (
            Ok(
                report(
                    true,
                    false,
                    "Enroll Voice Clone"@,
                    Seq::empty(),
                    next.version,
                    "Enrolled voice clone "@ + r.id,
                ),
            ),
            next,
        )
    }
}

fn is_voice_known(voices: &Vec<VoiceModelRecord>, record: &VoiceModelRecord) -> (r: bool)
    ensures
        r == voice_known(voice_model_record_views(voices@), record@),
{
    let ghost views = voice_model_record_views(voices@);
    let mut i: usize = 0;
    while i < voices.len()
        invariant
            i <= voices@.len(),
            views == voice_model_record_views(voices@),
            forall|j: int| 0 <= j < i ==> !same_voice(#[trigger] views[j], record@),
        decreases voices@.len() - i,
    {
        let existing = &voices[i];
        if existing.id == record.id || (existing.provider == record.provider
            && existing.provider_voice_id == record.provider_voice_id) {
            assert(same_voice(views[i as int], record@));
            return true;
        }
        i += 1;
    }
    false
}

/// Persists one consent-bearing provider voice identity.
pub fn save_voice_model(state: &mut EditorState, record: VoiceModelRecord) -> (r: Result<
    EditResult,
    EditError,
>)
    requires
        old(state)@.version < u64::MAX,
    ensures
        (outcome(r), final(state)@) == save_voice_model_spec(old(state)@, record@),
{
    if let Err(e) = validate_voice_model(&record) {
        return Err(e);
    }
    let index: usize = match find_media(&state.manifest, record.source_audio_asset_id.as_str()) {
        Some(index) => index,
        None => return Err(invalid("voice reference audio does not exist")),
    };
    let source = &state.manifest.entries[index];
    let audible = match source.has_audio {
        Some(b) => b,
        None => true,
    };
    if source.kind != ClipType::Audio || !audible {
        return Err(invalid("voice reference must be an audio asset"));
    }
    if is_voice_known(&state.timeline.voice_models, &record) {
        return Err(invalid("provider voice identity is already registered"));
    }
    if state.timeline.voice_models.len() >= 100 {
        return Err(invalid("project voice model limit reached"));
    }
    let ghost before = state.timeline;
    let ghost voices = before@.voice_models.push(record@);
    let summary = cat2("Enrolled voice clone ", record.id.as_str());
    state.timeline.voice_models.push(record);
    proof {
        lemma_nested_views(before);
        lemma_nested_views(state.timeline);
        assert(state.timeline@.voice_models =~= voices);
        assert(state.timeline@ =~= TimelineView { voice_models: voices, ..before@ });
    }
    state.commit_irreversible();
    let affected: Vec<String> = Vec::new();
    assert(texts(affected@) =~= Seq::empty());
    Ok(result(state, true, false, "Enroll Voice Clone", affected, summary.as_str()))
}

/// The position of the first voice with an id, from `from` on.
pub open spec fn voice_index(
    voices: Seq<VoiceModelRecordView>,
    id: Seq<char>,
    from: int,
) -> Option<int>
    decreases voices.len() - from,
{
    if from < 0 || from >= voices.len() {
        None
    } else if voices[from].id == id {
        Some(from)
    } else {
        voice_index(voices, id, from + 1)
    }
}

/// Revoking a voice; a second time changes nothing.
pub open spec fn revoke_voice_model_spec(s: StateView, id: Seq<char>) -> (
    Result<EditResultView, Fault>,
    StateView,
) {
    let voices = s.timeline.voice_models;
    match voice_index(voices, id, 0) {
        None => (Err(Fault::Invalid("voice model not found"@)), s),
        Some(i) => {
            if voices[i].revoked {
                (
                    Ok(
                        report(
                            false,
                            false,
                            "Revoke Voice Clone"@,
                            Seq::empty(),
                            s.version,
                            "Voice clone was already revoked"@,
                        ),
                    ),
                    s,
                )
            } else {
                let next = voices_changed(
                    s,
                    voices.update(i, VoiceModelRecordView { revoked: true, ..voices[i] }),
                );
                (
                    Ok(
                        report(
                            true,
                            false,
                            "Revoke Voice Clone"@,
                            Seq::empty(),
                            next.version,
                            "Revoked voice clone "@ + id,
                        ),
                    ),
                    next,
                )
            }
        },
    }
}

proof fn lemma_voice_index(voices: Seq<VoiceModelRecordView>, id: Seq<char>, from: int)
    requires
        0 <= from,
    ensures
        voice_index(voices, id, from) matches Some(i) ==> from <= i < voices.len() && voices[i].id
            == id && forall|j: int| from <= j < i ==> (#[trigger] voices[j]).id != id,
    decreases voices.len() - from,
{
    if from < voices.len() && voices[from].id != id {
        lemma_voice_index(voices, id, from + 1);
    }
}

/// A revoked voice stays revoked: revoking it again succeeds, changes nothing and
/// says so.
pub proof fn law_revocation_is_permanent(s: StateView, id: Seq<char>)
    requires
        revoke_voice_model_spec(s, id).0 is Ok,
    ensures
        ({
            let once = revoke_voice_model_spec(s, id).1;
            let (again, twice) = revoke_voice_model_spec(once, id);
            &&& twice == once
            &&& again matches Ok(e) && !e.changed
            &&& once.undo_stack.len() == 0 || once == s
        }),
{
    let voices = s.timeline.voice_models;
    lemma_voice_index(voices, id, 0);
    let i = voice_index(voices, id, 0)->0;
    let after = revoke_voice_model_spec(s, id).1.timeline.voice_models;
    lemma_voice_index(after, id, 0);
    assert(after[i].id == id);
    assert(after[i].revoked);
    assert(voice_index(after, id, 0) == Some(i)) by {
        lemma_voice_found(after, id, 0, i);
    }
}

proof fn lemma_voice_found(voices: Seq<VoiceModelRecordView>, id: Seq<char>, from: int, i: int)
    requires
        0 <= from <= i < voices.len(),
        voices[i].id == id,
        forall|j: int| from <= j < i ==> (#[trigger] voices[j]).id != id,
    ensures
        voice_index(voices, id, from) == Some(i),
    decreases i - from,
{
    if from < i {
        lemma_voice_found(voices, id, from + 1, i);
    }
}

/// Permanently marks a provider voice as revoked.
pub fn revoke_voice_model(state: &mut EditorState, voice_model_id: String) -> (r: Result<
    EditResult,
    EditError,
>)
    requires
        old(state)@.version < u64::MAX,
    ensures
        (outcome(r), final(state)@) == revoke_voice_model_spec(old(state)@, voice_model_id@),
{
    let ghost voices = state@.timeline.voice_models;
    let mut i: usize = 0;
    while i < state.timeline.voice_models.len()
        invariant
            i <= state.timeline.voice_models@.len(),
            state@ == old(state)@,
            old(state)@.version < u64::MAX,
            voices == voice_model_record_views(state.timeline.voice_models@),
            voices == state@.timeline.voice_models,
            voice_index(voices, voice_model_id@, 0) == voice_index(
                voices,
                voice_model_id@,
                i as int,
            ),
        decreases state.timeline.voice_models@.len() - i,
    {
        if same_text(state.timeline.voice_models[i].id.as_str(), voice_model_id.as_str()) {
            let affected: Vec<String> = Vec::new();
            assert(texts(affected@) =~= Seq::empty());
            if state.timeline.voice_models[i].revoked {
                return Ok(
                    result(
                        state,
                        false,
                        false,
                        "Revoke Voice Clone",
                        affected,
                        "Voice clone was already revoked",
                    ),
                );
            }
            let ghost before = state.timeline;
            state.timeline.voice_models[i].revoked = true;
            proof {
                lemma_nested_views(before);
                lemma_nested_views(state.timeline);
                let expected = voices.update(
                    i as int,
                    VoiceModelRecordView { revoked: true, ..voices[i as int] },
                );
                assert(state.timeline@.voice_models =~= expected);
                assert(state.timeline@ =~= TimelineView { voice_models: expected, ..before@ });
            }
            state.commit_irreversible();
            let summary = cat2("Revoked voice clone ", voice_model_id.as_str());
            return Ok(
                result(state, true, false, "Revoke Voice Clone", affected, summary.as_str()),
            );
        }
        i += 1;
    }
    Err(invalid("voice model not found"))
}

} // verus!
