use vstd::prelude::*;

verus! {

/// What a voice-state change means for the rooms.
#[derive(Debug, Clone, Copy, PartialEq, Eq, Structural)]
pub enum VoiceEvent {
    Connect { channel_id: u64 },
    Disconnect { channel_id: u64 },
    Update { channel_id: u64 },
}

/// The room events of a voice-state change from `old` (absent when the user
/// had no known state; its channel may be absent) to a state in
/// `new_channel`: a user with no previous state connects; one who leaves
/// every channel disconnects; one who stays changes flags; one who moves
/// leaves the old channel, then joins the new one.
pub open spec fn spec_translate(old: Option<Option<u64>>, new_channel: Option<u64>) -> Seq<VoiceEvent> {
    match (old, new_channel) {
        (None, Some(n)) => seq![VoiceEvent::Connect { channel_id: n }],
        (None, None) => Seq::empty(),
        (Some(Some(o)), None) => seq![VoiceEvent::Disconnect { channel_id: o }],
        (Some(None), None) => Seq::empty(),
        (Some(None), Some(n)) => seq![VoiceEvent::Connect { channel_id: n }],
        (Some(Some(o)), Some(n)) => if o == n {
            seq![VoiceEvent::Update { channel_id: n }]
        } else {
            seq![VoiceEvent::Disconnect { channel_id: o }, VoiceEvent::Connect { channel_id: n }]
        },
    }
}

/// The room events of a voice-state change (see `spec_translate`).
pub fn translate_voice_state(old: Option<Option<u64>>, new_channel: Option<u64>) -> (r: Vec<VoiceEvent>)
    ensures
        r@ == spec_translate(old, new_channel),
{
    let mut out: Vec<VoiceEvent> = Vec::new();
    match (old, new_channel) {
        (None, Some(n)) => out.push(VoiceEvent::Connect { channel_id: n }),
        (None, None) => {},
        (Some(Some(o)), None) => out.push(VoiceEvent::Disconnect { channel_id: o }),
        (Some(None), None) => {},
        (Some(None), Some(n)) => out.push(VoiceEvent::Connect { channel_id: n }),
        (Some(Some(o)), Some(n)) => {
            if o == n {
                out.push(VoiceEvent::Update { channel_id: n });
            } else {
                out.push(VoiceEvent::Disconnect { channel_id: o });
                out.push(VoiceEvent::Connect { channel_id: n });
            }
        },
    }
    assert(out@ =~= spec_translate(old, new_channel));
    out
}

} // verus!
