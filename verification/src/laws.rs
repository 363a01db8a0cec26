//! What holds of the coordinator over whole runs of events: what a buffer
//! holds when its speaker stops, that silence is never transcribed, that a
//! buffer starts afresh after each utterance, that bindings and buffers do
//! not touch each other, and that streams do not see one another.

use crate::identity::label_of;
use crate::receiver::{step, stop_outcome, Outcome, SessionState, VoiceEvent};
use crate::samples::{buffered, lemma_nonzero_concat, nonzero};
use vstd::prelude::*;

verus! {

/// The state after a run of events, taken in order.
pub open spec fn run(state: SessionState, events: Seq<VoiceEvent>) -> SessionState
    decreases events.len(),
{
    if events.len() == 0 {
        state
    } else {
        step(run(state, events.drop_last()), events.last())
    }
}

/// Whether `event` says that `ssrc` stopped speaking.
pub open spec fn stops(event: VoiceEvent, ssrc: u32) -> bool {
    match event {
        VoiceEvent::SpeakingUpdate { ssrc: of, speaking } => of == ssrc && !speaking,
        _ => false,
    }
}

/// Whether `event` binds a speaker to `ssrc`.
pub open spec fn binds(event: VoiceEvent, ssrc: u32) -> bool {
    match event {
        VoiceEvent::SpeakingStateUpdate { ssrc: of, user_id } => of == ssrc && user_id is Some,
        _ => false,
    }
}

/// Whether `event` is a decoded packet of `ssrc`.
pub open spec fn carries(event: VoiceEvent, ssrc: u32) -> bool {
    match event {
        VoiceEvent::VoicePacket { ssrc: of, audio } => of == ssrc && audio is Some,
        _ => false,
    }
}

/// Whether `event` is about the stream `ssrc`.
pub open spec fn concerns(event: VoiceEvent, ssrc: u32) -> bool {
    match event {
        VoiceEvent::SpeakingStateUpdate { ssrc: of, user_id } => of == ssrc,
        VoiceEvent::SpeakingUpdate { ssrc: of, speaking } => of == ssrc,
        VoiceEvent::VoicePacket { ssrc: of, audio } => of == ssrc,
        _ => false,
    }
}

/// The samples that `event` delivers for `ssrc`, zeros included.
pub open spec fn delivered(event: VoiceEvent, ssrc: u32) -> Seq<i16> {
    match event {
        VoiceEvent::VoicePacket { ssrc: of, audio: Some(samples) } => if of == ssrc {
            samples@
        } else {
            Seq::empty()
        },
        _ => Seq::empty(),
    }
}

/// All samples that a run of events delivers for `ssrc`, in arrival order.
pub open spec fn heard(events: Seq<VoiceEvent>, ssrc: u32) -> Seq<i16>
    decreases events.len(),
{
    if events.len() == 0 {
        Seq::empty()
    } else {
        heard(events.drop_last(), ssrc) + delivered(events.last(), ssrc)
    }
}

/// The event that ends the utterance of `ssrc`.
pub open spec fn stop_of(ssrc: u32) -> VoiceEvent {
    VoiceEvent::SpeakingUpdate { ssrc, speaking: false }
}

/// While a stream does not stop, its buffer holds what it held before,
/// followed by the non-zero samples of its packets in arrival order, whatever
/// other events come in between; and it has a buffer exactly if it had one or
/// a decoded packet came for it.
pub proof fn law_buffer_accumulates(state: SessionState, events: Seq<VoiceEvent>, ssrc: u32)
    requires
        forall|i: int| 0 <= i < events.len() ==> !stops(#[trigger] events[i], ssrc),
    ensures
        buffered(run(state, events).buffers, ssrc) == buffered(state.buffers, ssrc) + nonzero(
            heard(events, ssrc),
        ),
        run(state, events).buffers.contains_key(ssrc) <==> state.buffers.contains_key(ssrc) || (
        exists|i: int| 0 <= i < events.len() && carries(#[trigger] events[i], ssrc)),
    decreases events.len(),
{
    if events.len() == 0 {
        assert(nonzero(Seq::<i16>::empty()) =~= Seq::<i16>::empty());
        assert(buffered(state.buffers, ssrc) + Seq::<i16>::empty() =~= buffered(
            state.buffers,
            ssrc,
        ));
    } else {
        let earlier = events.drop_last();
        let last = events.last();
        assert forall|i: int| 0 <= i < earlier.len() implies !stops(#[trigger] earlier[i], ssrc) by {
            assert(earlier[i] == events[i]);
        }
        law_buffer_accumulates(state, earlier, ssrc);
        let before = run(state, earlier);
        let base = buffered(state.buffers, ssrc);
        assert(!stops(last, ssrc));
        lemma_nonzero_concat(heard(earlier, ssrc), delivered(last, ssrc));
        assert(nonzero(Seq::<i16>::empty()) =~= Seq::<i16>::empty());
        assert(buffered(step(before, last).buffers, ssrc) =~= buffered(before.buffers, ssrc)
            + nonzero(delivered(last, ssrc)));
        assert(base + nonzero(heard(earlier, ssrc)) + nonzero(delivered(last, ssrc)) =~= base + (
        nonzero(heard(earlier, ssrc)) + nonzero(delivered(last, ssrc))));
        if run(state, events).buffers.contains_key(ssrc) && !state.buffers.contains_key(ssrc) {
            if carries(last, ssrc) {
                assert(carries(events[events.len() - 1], ssrc));
            } else {
                let i = choose|i: int| 0 <= i < earlier.len() && carries(#[trigger] earlier[i], ssrc);
                assert(carries(events[i], ssrc));
            }
        }
        if exists|i: int| 0 <= i < events.len() && carries(#[trigger] events[i], ssrc) {
            let i = choose|i: int| 0 <= i < events.len() && carries(#[trigger] events[i], ssrc);
            if i < earlier.len() {
                assert(carries(earlier[i], ssrc));
            }
        }
    }
}

/// The utterance handed on when a stream stops holds exactly the non-zero
/// samples of the packets that came for it since it had no buffer, in
/// arrival order; and the stop leaves the stream without a buffer.
pub proof fn law_drained_is_concatenation(
    state: SessionState,
    events: Seq<VoiceEvent>,
    ssrc: u32,
    outcome: Outcome,
)
    requires
        !state.buffers.contains_key(ssrc),
        forall|i: int| 0 <= i < events.len() ==> !stops(#[trigger] events[i], ssrc),
        stop_outcome(run(state, events), ssrc, outcome),
    ensures
        outcome matches Outcome::Finished(utterance) ==> utterance.samples@ == nonzero(
            heard(events, ssrc),
        ),
        !step(run(state, events), stop_of(ssrc)).buffers.contains_key(ssrc),
{
    law_buffer_accumulates(state, events, ssrc);
    assert(Seq::<i16>::empty() + nonzero(heard(events, ssrc)) =~= nonzero(heard(events, ssrc)));
}

/// A stream that stops without having had a packet has no buffer, and one
/// whose packets held nothing but zeros has an empty one; in neither case
/// is anything handed on to be transcribed.
pub proof fn law_silence_is_not_transcribed(
    state: SessionState,
    events: Seq<VoiceEvent>,
    ssrc: u32,
    outcome: Outcome,
)
    requires
        !state.buffers.contains_key(ssrc),
        forall|i: int| 0 <= i < events.len() ==> !stops(#[trigger] events[i], ssrc),
        forall|k: int| 0 <= k < heard(events, ssrc).len() ==> heard(events, ssrc)[k] == 0,
        stop_outcome(run(state, events), ssrc, outcome),
    ensures
        !(outcome is Finished),
        if exists|i: int| 0 <= i < events.len() && carries(#[trigger] events[i], ssrc) {
            outcome is Silence
        } else {
            outcome is NothingBuffered
        },
{
    law_buffer_accumulates(state, events, ssrc);
    let all = heard(events, ssrc);
    if nonzero(all).len() > 0 {
        all.lemma_filter_pred(|s: i16| s != 0, 0);
        let kept = nonzero(all)[0];
        all.lemma_filter_contains_rev(|s: i16| s != 0, kept);
        assert(all.contains(kept));
        assert(false);
    }
    assert(Seq::<i16>::empty() + nonzero(all) =~= nonzero(all));
}

/// After a stream has stopped, its next packet starts a buffer of its own:
/// nothing of the utterance before is in it.
pub proof fn law_fresh_buffer_after_stop(state: SessionState, ssrc: u32, samples: Vec<i16>)
    ensures
        !step(state, stop_of(ssrc)).buffers.contains_key(ssrc),
        step(
            step(state, stop_of(ssrc)),
            VoiceEvent::VoicePacket { ssrc, audio: Some(samples) },
        ).buffers[ssrc] == nonzero(samples@),
{
    assert(Seq::<i16>::empty() + nonzero(samples@) =~= nonzero(samples@));
}

/// An utterance is handed on once: a stream that stops again before any
/// packet came for it has nothing buffered.
pub proof fn law_stop_is_once(state: SessionState, ssrc: u32, outcome: Outcome)
    requires
        stop_outcome(step(state, stop_of(ssrc)), ssrc, outcome),
    ensures
        outcome is NothingBuffered,
{
}

/// What the buffers hold after a run of events does not depend on who was
/// bound to whom when it began.
pub proof fn lemma_buffers_ignore_speakers(a: SessionState, b: SessionState, events: Seq<VoiceEvent>)
    requires
        a.buffers == b.buffers,
    ensures
        run(a, events).buffers == run(b, events).buffers,
    decreases events.len(),
{
    if events.len() > 0 {
        lemma_buffers_ignore_speakers(a, b, events.drop_last());
    }
}

/// Binding a speaker, at whatever moment, changes no buffer, then or later.
pub proof fn law_binding_leaves_buffers(
    state: SessionState,
    ssrc: u32,
    name: String,
    events: Seq<VoiceEvent>,
)
    ensures
        step(state, VoiceEvent::SpeakingStateUpdate { ssrc, user_id: Some(name) }).buffers
            == state.buffers,
        run(
            step(state, VoiceEvent::SpeakingStateUpdate { ssrc, user_id: Some(name) }),
            events,
        ).buffers == run(state, events).buffers,
{
    lemma_buffers_ignore_speakers(
        step(state, VoiceEvent::SpeakingStateUpdate { ssrc, user_id: Some(name) }),
        state,
        events,
    );
}

/// A binding stays until the stream is bound again.
pub proof fn lemma_binding_stays(state: SessionState, events: Seq<VoiceEvent>, ssrc: u32)
    requires
        forall|i: int| 0 <= i < events.len() ==> !binds(#[trigger] events[i], ssrc),
    ensures
        label_of(run(state, events).speakers, ssrc) == label_of(state.speakers, ssrc),
    decreases events.len(),
{
    if events.len() > 0 {
        let earlier = events.drop_last();
        assert forall|i: int| 0 <= i < earlier.len() implies !binds(#[trigger] earlier[i], ssrc) by {
            assert(earlier[i] == events[i]);
        }
        lemma_binding_stays(state, earlier, ssrc);
        assert(!binds(events.last(), ssrc));
    }
}

/// An utterance is reported under the name that was bound last before its
/// stream stopped, also where that binding came in the middle of it.
pub proof fn law_report_uses_latest_binding(
    state: SessionState,
    ssrc: u32,
    name: String,
    events: Seq<VoiceEvent>,
    outcome: Outcome,
)
    requires
        forall|i: int| 0 <= i < events.len() ==> !binds(#[trigger] events[i], ssrc),
        stop_outcome(
            run(step(state, VoiceEvent::SpeakingStateUpdate { ssrc, user_id: Some(name) }), events),
            ssrc,
            outcome,
        ),
    ensures
        outcome matches Outcome::Finished(utterance) ==> utterance.speaker@ == name@,
{
    lemma_binding_stays(
        step(state, VoiceEvent::SpeakingStateUpdate { ssrc, user_id: Some(name) }),
        events,
        ssrc,
    );
}

/// An event about one stream leaves every other stream as it was: its
/// buffer, its binding, and what a stop of it would yield.
pub proof fn law_streams_are_isolated(
    state: SessionState,
    event: VoiceEvent,
    other: u32,
    outcome: Outcome,
)
    requires
        !concerns(event, other),
    ensures
        step(state, event).buffers.contains_key(other) == state.buffers.contains_key(other),
        buffered(step(state, event).buffers, other) == buffered(state.buffers, other),
        step(state, event).speakers.contains_key(other) == state.speakers.contains_key(other),
        label_of(step(state, event).speakers, other) == label_of(state.speakers, other),
        stop_outcome(step(state, event), other, outcome) == stop_outcome(state, other, outcome),
{
}

/// Two streams may stop in either order: the state afterwards is the same,
/// and what each stop yields is what it would have yielded alone.
pub proof fn law_stops_commute(state: SessionState, a: u32, b: u32, outcome: Outcome)
    requires
        a != b,
    ensures
        step(step(state, stop_of(a)), stop_of(b)) == step(step(state, stop_of(b)), stop_of(a)),
        stop_outcome(step(state, stop_of(a)), b, outcome) == stop_outcome(state, b, outcome),
        stop_outcome(step(state, stop_of(b)), a, outcome) == stop_outcome(state, a, outcome),
{
    assert(state.buffers.remove(a).remove(b) =~= state.buffers.remove(b).remove(a));
}

} // verus!
