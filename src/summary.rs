use vstd::prelude::*;
use crate::participant::{total_duration, Participant};
use crate::ticks::{decimal, padded, push_decimal, push_padded, string_from_chars};

verus! {

/// A duration of `ms` milliseconds as whole hours and minutes, `H:MM`.
pub open spec fn delta_text(ms: nat) -> Seq<char> {
    let minutes = ms / 60_000;
    decimal(minutes / 60) + seq![':'] + padded(minutes % 60, 2)
}

/// One line of the report's history: the participant's name and the time it
/// has spent connected by `now`.
pub open spec fn history_line(p: Participant, now: u64) -> Seq<char> {
    p.spec_name() + seq![' ', '('] + delta_text(total_duration(p.spec_history(), now) as nat) + seq![')']
}

/// The lines of all participants, in order, separated by line breaks.
pub open spec fn history_text(ps: Seq<Participant>, now: u64) -> Seq<char>
    decreases ps.len(),
{
    if ps.len() == 0 {
        Seq::empty()
    } else if ps.len() == 1 {
        history_line(ps[0], now)
    } else {
        history_text(ps.drop_last(), now) + seq!['\n'] + history_line(ps.last(), now)
    }
}

fn push_delta(out: &mut String, ms: u64)
    ensures
        final(out)@ == old(out)@ + delta_text(ms as nat),
{
    let minutes = ms / 60_000;
    let mut chars: Vec<char> = Vec::new();
    push_decimal(&mut chars, minutes / 60);
    chars.push(':');
    push_padded(&mut chars, minutes % 60, 2);
    assert(chars@ =~= delta_text(ms as nat));
    let text = string_from_chars(&chars);
    out.append(text.as_str());
}

/// A duration of `ms` milliseconds as `H:MM`.
pub fn format_time_delta(ms: u64) -> (r: String)
    ensures
        r@ == delta_text(ms as nat),
{
    let mut out = String::new();
    push_delta(&mut out, ms);
    assert(out@ =~= delta_text(ms as nat));
    out
}

/// The report's history field: one line per participant, `name (H:MM)`,
/// with the time each has spent connected by `now`.
pub fn format_history(now: u64, participants: &Vec<Participant>) -> (r: String)
    requires
        forall|i: int| 0 <= i < participants@.len() ==> (#[trigger] participants@[i]).wf() && now
            >= participants@[i].latest(),
    ensures
        r@ == history_text(participants@, now),
{
    let mut out = String::new();
    let mut i: usize = 0;
    while i < participants.len()
        invariant
            i <= participants@.len(),
            forall|k: int| 0 <= k < participants@.len() ==> (#[trigger] participants@[k]).wf() && now
                >= participants@[k].latest(),
            out@ == history_text(participants@.take(i as int), now),
        decreases participants@.len() - i,
    {
        let p = &participants[i];
        let ghost before = out@;
        if i > 0 {
            out.append("\n");
        }
        out.append(p.name());
        out.append(" (");
        let d = p.calculate_duration(now);
        push_delta(&mut out, d);
        out.append(")");
        proof {
            reveal_strlit("\n");
            reveal_strlit(" (");
            reveal_strlit(")");
            let ps1 = participants@.take(i + 1);
            assert(ps1.drop_last() == participants@.take(i as int));
            assert(ps1.last() == participants@[i as int]);
            if i == 0 {
                assert(out@ =~= history_line(participants@[0], now));
            } else {
                assert(out@ =~= before + seq!['\n'] + history_line(participants@[i as int], now));
            }
        }
        i = i + 1;
    }
    assert(participants@.take(i as int) == participants@);
    out
}

} // verus!
