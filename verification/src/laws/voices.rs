//! Who may lend a voice to a project, and how it is taken back.

use crate::commands::script::byte_length;
use crate::commands::script::hex_digit;
use crate::commands::script::sha256_text;
use crate::commands::voice::revoke_voice_model_spec;
use crate::commands::voice::same_voice;
use crate::commands::voice::save_voice_model_spec;
use crate::commands::voice::token;
use crate::commands::voice::token_byte;
use crate::commands::voice::voice_id;
use crate::commands::voice::voice_id_byte;
use crate::commands::voice::voice_index;
use crate::commands::voice::voice_known;
use crate::laws::document::first_entry;
use crate::laws::document::law_media_are_found_by_id;
use crate::locate::media_index;
use crate::model::TimelineView;
use crate::model::VoiceModelRecordView;
use crate::state::StateView;
use crate::text::trimmed;
use vstd::prelude::*;

verus! {

/// Which bytes may stand in tokens, in voice ids and in hashes.
pub proof fn law_bytes_of_names(b: u8)
    ensures
        voice_id_byte(b) <==> ('0' as u8 <= b && b <= '9' as u8) || ('A' as u8 <= b && b
            <= 'Z' as u8) || ('a' as u8 <= b && b <= 'z' as u8) || b == '-' as u8 || b
            == '_' as u8,
        token_byte(b) <==> voice_id_byte(b) || b == '.' as u8 || b == ':' as u8 || b == '/' as u8,
        hex_digit(b) <==> ('0' as u8 <= b && b <= '9' as u8) || ('A' as u8 <= b && b <= 'F' as u8)
            || ('a' as u8 <= b && b <= 'f' as u8),
{
}

/// Whether a voice may be enrolled: its record is in order, its audio is in the library
/// and carries sound, no voice has its id or is the provider's same voice, and there are
/// fewer than a hundred.
pub open spec fn may_enroll(s: StateView, r: VoiceModelRecordView) -> bool {
    &&& token(r.id, 128)
    &&& token(r.provider, 64)
    &&& voice_id(r.provider_voice_id)
    &&& token(r.model, 256)
    &&& token(r.consent_id, 256)
    &&& token(r.source_audio_asset_id, 256)
    &&& sha256_text(r.source_audio_sha256)
    &&& sha256_text(r.request_hash)
    &&& trimmed(r.voice_name).len() > 0
    &&& byte_length(r.voice_name) <= 128
    &&& exists|i: int| #[trigger]
        first_entry(s.manifest, r.source_audio_asset_id, i) && s.manifest.entries[i].kind is Audio
            && s.manifest.entries[i].has_audio != Some(false)
    &&& forall|k: int|
        0 <= k < s.timeline.voice_models.len() ==> {
            let v = #[trigger] s.timeline.voice_models[k];
            v.id != r.id && !(v.provider == r.provider && v.provider_voice_id
                == r.provider_voice_id)
        }
    &&& s.timeline.voice_models.len() < 100
}

/// Enrolling a voice succeeds exactly when it may be enrolled; then it stands behind the
/// others, nothing else of the document changes, and no step back could take it away.
pub proof fn law_voices_are_enrolled_once(s: StateView, r: VoiceModelRecordView)
    requires
        s.version < u64::MAX,
    ensures
        ({
            let (q, next) = save_voice_model_spec(s, r);
            &&& q is Ok <==> may_enroll(s, r)
            &&& q is Err ==> next == s
            &&& q is Ok ==> {
                let n = s.timeline.voice_models.len() as int;
                &&& next.manifest == s.manifest
                &&& next.timeline == (TimelineView {
                    voice_models: next.timeline.voice_models,
                    ..s.timeline
                })
                &&& next.timeline.voice_models.len() == n + 1
                &&& next.timeline.voice_models[n] == r
                &&& forall|k: int|
                    0 <= k < n ==> #[trigger] next.timeline.voice_models[k]
                        == s.timeline.voice_models[k]
                &&& next.undo_stack.len() == 0
                &&& next.redo_stack.len() == 0
                &&& next.version == s.version + 1
            }
        }),
{
    let id = r.source_audio_asset_id;
    law_media_are_found_by_id(s.manifest, id, 0);
    if let Some(i) = media_index(s.manifest.entries, id, 0) {
        law_media_are_found_by_id(s.manifest, id, i);
        assert(first_entry(s.manifest, id, i));
        assert forall|k: int| #[trigger] first_entry(s.manifest, id, k) implies k == i by {
            law_media_are_found_by_id(s.manifest, id, k);
        }
    } else {
        assert forall|k: int| !#[trigger] first_entry(s.manifest, id, k) by {
            law_media_are_found_by_id(s.manifest, id, k);
        }
    }
    let voices = s.timeline.voice_models;
    if voice_known(voices, r) {
        let k = choose|k: int|
            0 <= k < voices.len() && same_voice(#[trigger] voices[k], r);
        assert(voices[k].id == r.id || (voices[k].provider == r.provider
            && voices[k].provider_voice_id == r.provider_voice_id));
    } else {
        assert forall|k: int| 0 <= k < voices.len() implies {
            let v = #[trigger] voices[k];
            v.id != r.id && !(v.provider == r.provider && v.provider_voice_id
                == r.provider_voice_id)
        } by {
            assert(!same_voice(voices[k], r));
        }
    }
}

/// Whether the voice at a position is the first with an id.
pub open spec fn first_voice(s: StateView, id: Seq<char>, i: int) -> bool {
    &&& 0 <= i < s.timeline.voice_models.len()
    &&& s.timeline.voice_models[i].id == id
    &&& forall|k: int| 0 <= k < i ==> (#[trigger] s.timeline.voice_models[k]).id != id
}

proof fn lemma_voice(s: StateView, id: Seq<char>, from: int, i: int)
    requires
        0 <= from <= i,
        first_voice(s, id, i),
    ensures
        voice_index(s.timeline.voice_models, id, from) == Some(i),
    decreases i - from,
{
    if from < i {
        lemma_voice(s, id, from + 1, i);
    }
}

/// Revoking a voice marks it, and changes nothing else of the document; no step back
/// could take the mark away. Revoking it again changes nothing.
pub proof fn law_voices_are_revoked(s: StateView, id: Seq<char>, i: int)
    requires
        s.version < u64::MAX,
        first_voice(s, id, i),
    ensures
        ({
            let (q, next) = revoke_voice_model_spec(s, id);
            let old_voices = s.timeline.voice_models;
            let voices = next.timeline.voice_models;
            &&& q is Ok
            &&& next.manifest == s.manifest
            &&& next.timeline == (TimelineView { voice_models: voices, ..s.timeline })
            &&& voices.len() == old_voices.len()
            &&& voices[i] == (VoiceModelRecordView { revoked: true, ..old_voices[i] })
            &&& forall|k: int|
                0 <= k < voices.len() && k != i ==> #[trigger] voices[k] == old_voices[k]
            &&& old_voices[i].revoked ==> next == s
            &&& !old_voices[i].revoked ==> next.undo_stack.len() == 0 && next.redo_stack.len() == 0
                && next.version == s.version + 1
            &&& q->Ok_0.changed == !old_voices[i].revoked
        }),
{
    lemma_voice(s, id, 0, i);
}

/// A voice that is not there cannot be revoked.
pub proof fn law_voices_have_to_be_there(s: StateView, id: Seq<char>, from: int)
    requires
        0 <= from,
        forall|k: int|
            0 <= k < s.timeline.voice_models.len() ==> (
            #[trigger] s.timeline.voice_models[k]).id != id,
    ensures
        voice_index(s.timeline.voice_models, id, from) is None,
        from == 0 ==> revoke_voice_model_spec(s, id).0 is Err && revoke_voice_model_spec(s, id).1
            == s,
    decreases s.timeline.voice_models.len() - from,
{
    if from < s.timeline.voice_models.len() {
        assert(s.timeline.voice_models[from].id != id);
        law_voices_have_to_be_there(s, id, from + 1);
    }
}

} // verus!
