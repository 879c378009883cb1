//! Why a session that has taken its tick has caught up: the proofs behind
//! the contract of the rollback session.
//!
//! The plan of a tick is followed request by request. At every point the
//! timeline is the match that the best-known inputs make of the frames run
//! so far, and the history holds every frame that may still turn out wrong.

use vstd::prelude::*;
use crate::error::SessionError;
use crate::input::{decode_spec, idle_spec, lemma_bit_weights};
use crate::session::{
    advance_refusal, as_confirmed, as_frames, event_refusal, notified, ran, requested, ticked,
    Event, SessionModel,
};
use crate::snapshot::lemma_saved_is_found;
use crate::state::{
    advanced, held, lemma_advanced_reads_held, lemma_advanced_through_wf, GameStateModel,
    TaggedInput,
};
use crate::timeline::{
    applied, applied_all, lemma_applied_last, refused, RequestModel, TimelineModel,
};

verus! {

/// An event that fits changes neither the match nor what was run.
pub(crate) proof fn lemma_notified_keeps_match(m: SessionModel, event: Event)
    requires
        event_refusal(m, event) is None,
    ensures
        notified(m, event).timeline == m.timeline,
        notified(m, event).settled == m.settled,
        notified(m, event).used == m.used,
        notified(m, event).initial == m.initial,
        notified(m, event).max_prediction == m.max_prediction,
        notified(m, event).halted == m.halted,
        notified(m, event).local == m.local,
        notified(m, event).players() == m.players(),
        forall|f: int| notified(m, event).replayed(f) == m.replayed(f),
{
}

/// What was known of an input before an event that fits is known after it,
/// and is the same.
pub(crate) proof fn lemma_notified_keeps_known(m: SessionModel, event: Event, p: int, f: int)
    requires
        m.shaped(),
        event_refusal(m, event) is None,
        0 <= p < m.players(),
        0 <= f,
        m.known(p, f),
    ensures
        notified(m, event).known(p, f),
        notified(m, event).best_input(p, f).input == m.best_input(p, f).input,
{
}

/// An event that fits keeps a session shaped.
pub(crate) proof fn lemma_notified_shaped(m: SessionModel, event: Event)
    requires
        m.shaped(),
        event_refusal(m, event) is None,
    ensures
        notified(m, event).shaped(),
{
    let after = notified(m, event);
    assert forall|p: int, f: int|
        0 <= p < after.players() && 0 <= f < after.received[p].len() implies (
    #[trigger] after.received[p][f]) < 64 by {
        if f < m.received[p].len() {
            assert(m.received[p][f] < 64);
        }
    }
    assert forall|f: int| 0 <= f < after.used.len() implies (#[trigger] after.used[f]).len()
        == after.players() by {
        assert(m.used[f].len() == m.players());
    }
}

/// An event that fits keeps a session well formed. It leaves the match, the
/// frame and the count of confirmed frames alone.
pub proof fn lemma_notified_wf(m: SessionModel, event: Event)
    requires
        m.wf(),
        event_refusal(m, event) is None,
    ensures
        notified(m, event).wf(),
        notified(m, event).timeline == m.timeline,
        notified(m, event).settled == m.settled,
{
    let after = notified(m, event);
    lemma_notified_keeps_match(m, event);
    lemma_notified_shaped(m, event);
    assert(after.faithful());
    assert(after.bounded());
    assert forall|f: int| 0 <= f < after.settled implies #[trigger] after.settled_at(f) by {
        assert(m.settled_at(f));
        assert forall|p: int|
            #![trigger after.known(p, f)]
            #![trigger after.used[f][p]]
            #![trigger after.best_input(p, f)]
            0 <= p < after.players() implies after.known(p, f) && after.used[f][p]
                == after.best_input(p, f).input by {
            assert(m.known(p, f) && m.used[f][p] == m.best_input(p, f).input);
            lemma_notified_keeps_known(m, event, p, f);
        }
    }
    assert forall|f: int|
        after.settled <= f < after.timeline.current_frame implies #[trigger] after.archived_at(
        f,
    ) by {
        assert(m.archived_at(f));
    }
}

/// The count of frames that are known of every player is at most the count
/// for each player and at most the current frame.
pub(crate) proof fn lemma_known_of_first(m: SessionModel, n: int)
    requires
        0 <= n,
    ensures
        m.known_of_first(n) <= m.timeline.current_frame,
        forall|p: int| 0 <= p < n ==> m.known_of_first(n) <= #[trigger] m.known_frames(p),
    decreases n,
{
    if n > 0 {
        lemma_known_of_first(m, n - 1);
    }
}

/// A count that is at most the count of frames known of each player, and at
/// most the current frame, is at most the count of frames known of all.
pub(crate) proof fn lemma_known_of_first_is_largest(m: SessionModel, n: int, c: int)
    requires
        0 <= n,
        c <= m.timeline.current_frame,
        forall|p: int| 0 <= p < n ==> c <= #[trigger] m.known_frames(p),
    ensures
        c <= m.known_of_first(n),
    decreases n,
{
    if n > 0 {
        assert(c <= m.known_frames(n - 1));
        lemma_known_of_first_is_largest(m, n - 1, c);
    }
}

/// Every input of a frame below the count of frames that are known of every
/// player is known.
pub(crate) proof fn lemma_known_below(m: SessionModel, f: int, p: int)
    requires
        0 <= p < m.players(),
        0 <= f < m.known_of_all(),
    ensures
        m.known(p, f),
{
    lemma_known_of_first(m, m.players());
    assert(m.known_of_all() <= m.known_frames(p));
}

/// The match that the best-known inputs make after one frame more is the
/// match that they make so far, advanced under the best-known inputs of the
/// next frame.
pub(crate) proof fn lemma_ideal_step(m: SessionModel, frames: int)
    requires
        0 <= frames,
    ensures
        m.ideal(frames + 1) == advanced(
            m.ideal(frames),
            m.best(frames),
            m.timeline.delta_time,
        ),
{
    let longer = Seq::new((frames + 1) as nat, |f: int| m.best(f));
    let shorter = Seq::new(frames as nat, |f: int| m.best(f));
    assert(longer.drop_last() =~= shorter);
    assert(longer.last() == m.best(frames));
}

/// The match that the best-known inputs make is well formed, and each of
/// its paddles finds its player.
pub(crate) proof fn lemma_ideal_wf(m: SessionModel, frames: int)
    requires
        m.initial.wf(),
        m.initial.driven_by(m.players()),
    ensures
        m.ideal(frames).wf(),
        m.ideal(frames).driven_by(m.players()),
{
    lemma_advanced_through_wf(
        m.initial,
        Seq::new(frames as nat, |f: int| m.best(f)),
        m.timeline.delta_time,
    );
}

/// The match that the frames run so far made after one frame more is the
/// match that they made before, advanced under the bytes of that frame.
pub(crate) proof fn lemma_replayed_step(m: SessionModel, frames: int)
    requires
        0 <= frames < m.used.len(),
    ensures
        m.replayed(frames + 1) == advanced(
            m.replayed(frames),
            as_confirmed(m.used[frames]),
            m.timeline.delta_time,
        ),
{
    let longer = as_frames(m.used.take(frames + 1));
    let shorter = as_frames(m.used.take(frames));
    assert(longer.drop_last() =~= shorter);
    assert(longer.last() == as_confirmed(m.used[frames]));
}

/// The bytes of the best-known inputs, taken as confirmed, say of each
/// player what the best-known inputs say: a player who is gone has the byte
/// that holds nothing.
pub(crate) proof fn lemma_bytes_hold_best(m: SessionModel, f: int, p: int)
    requires
        0 <= p < m.players(),
    ensures
        held(as_confirmed(m.best_bytes(f))[p]) == held(m.best(f)[p]),
{
    lemma_bit_weights();
    assert(decode_spec(0) == idle_spec());
}

/// A tick under the bytes of the best-known inputs, taken as confirmed, is
/// a tick under the best-known inputs.
pub(crate) proof fn lemma_advanced_under_bytes(m: SessionModel, state: GameStateModel, f: int)
    requires
        state.wf(),
        state.driven_by(m.players()),
    ensures
        advanced(state, as_confirmed(m.best_bytes(f)), m.timeline.delta_time) == advanced(
            state,
            m.best(f),
            m.timeline.delta_time,
        ),
{
    assert forall|i: int| 0 <= i < state.paddles.len() implies held(
        as_confirmed(m.best_bytes(f))[(#[trigger] state.paddles[i]).id],
    ) == held(m.best(f)[state.paddles[i].id]) by {
        assert(state.paddles[i].wf());
        lemma_bytes_hold_best(m, f, state.paddles[i].id);
    }
    lemma_advanced_reads_held(
        state,
        as_confirmed(m.best_bytes(f)),
        m.best(f),
        m.timeline.delta_time,
    );
}

/// Where the first `frames` frames were run under the bytes of the best that
/// is known now, the match that they made is the match that the best-known
/// inputs make: a guess that was right need not be run again.
pub proof fn lemma_replayed_is_ideal(m: SessionModel, frames: int)
    requires
        0 <= frames <= m.used.len(),
        m.initial.wf(),
        m.initial.driven_by(m.players()),
        forall|f: int| 0 <= f < frames ==> #[trigger] m.right_at(f),
    ensures
        m.replayed(frames) == m.ideal(frames),
    decreases frames,
{
    if frames == 0 {
        assert(as_frames(m.used.take(0)) =~= Seq::<Seq<TaggedInput>>::empty());
        assert(Seq::new(0 as nat, |f: int| m.best(f)) =~= Seq::<Seq<TaggedInput>>::empty());
    } else {
        let last = frames - 1;
        lemma_replayed_is_ideal(m, last);
        lemma_replayed_step(m, last);
        lemma_ideal_step(m, last);
        lemma_ideal_wf(m, last);
        assert(m.right_at(last));
        lemma_advanced_under_bytes(m, m.ideal(last), last);
    }
}

/// Two frames that are closer together than the history has cells lie in
/// different cells.
pub(crate) proof fn lemma_cells_differ(g: int, f: int, capacity: int)
    requires
        0 <= g < f,
        f - g < capacity,
    ensures
        g % capacity != f % capacity,
{
    vstd::arithmetic::div_mod::lemma_fundamental_div_mod(g, capacity);
    vstd::arithmetic::div_mod::lemma_fundamental_div_mod(f, capacity);
    if g % capacity == f % capacity {
        let q = f / capacity - g / capacity;
        assert(f - g == capacity * q) by (nonlinear_arith)
            requires
                f == capacity * (f / capacity) + f % capacity,
                g == capacity * (g / capacity) + g % capacity,
                g % capacity == f % capacity,
                q == f / capacity - g / capacity,
        ;
        assert(false) by (nonlinear_arith)
            requires
                f - g == capacity * q,
                0 < f - g < capacity,
        ;
    }
}

/// A session stays well formed where nothing changes but the ticks to be
/// skipped, the halt and the statistics.
pub(crate) proof fn lemma_bookkeeping_wf(before: SessionModel, after: SessionModel)
    requires
        before.wf(),
        after == (SessionModel {
            stats: after.stats,
            frames_to_skip: after.frames_to_skip,
            halted: after.halted,
            ..before
        }),
        after.stats.len() == before.stats.len(),
        0 <= after.frames_to_skip,
    ensures
        after.wf(),
{
    assert forall|f: int| after.replayed(f) == before.replayed(f) by {}
    assert forall|f: int| 0 <= f < after.settled implies #[trigger] after.settled_at(f) by {
        assert(before.settled_at(f));
        assert forall|p: int|
            #![trigger after.known(p, f)]
            #![trigger after.used[f][p]]
            #![trigger after.best_input(p, f)]
            0 <= p < after.players() implies after.known(p, f) && after.used[f][p]
                == after.best_input(p, f).input by {
            assert(before.known(p, f) && before.used[f][p] == before.best_input(p, f).input);
        }
    }
    assert forall|f: int|
        after.settled <= f < after.timeline.current_frame implies #[trigger] after.archived_at(
        f,
    ) by {
        assert(before.archived_at(f));
    }
}

/// The history of `t` holds frame `g` as the best-known inputs of `k` make
/// it.
pub open spec fn kept(k: SessionModel, t: TimelineModel, g: int) -> bool {
    t.history.contains_key(g) && t.history[g] == k.ideal(g)
}

/// The requests of a tick as far as they have been carried out when the
/// timeline stands at frame `n`, where the first wrong frame is `wrong`.
pub open spec fn planned_up_to(k: SessionModel, wrong: int, n: int) -> Seq<RequestModel> {
    if wrong < k.timeline.current_frame {
        seq![
            RequestModel::LoadGameState { frame: wrong },
            RequestModel::AdvanceFrame { inputs: k.best(wrong) },
        ].add(k.rerun(wrong + 1, n))
    } else {
        k.rerun(k.timeline.current_frame, n)
    }
}

/// Where a tick stands while it runs: the session `k` has the local input
/// on record; the timeline `t` has carried out the requests `done` and is
/// the match that the best-known inputs make; `used` are the bytes of these
/// inputs; and the history holds every frame from the first that is not
/// confirmed up to the one before the frame of `t`.
#[verifier::opaque]
pub open spec fn rerunning(
    k: SessionModel,
    t: TimelineModel,
    used: Seq<Seq<u8>>,
    done: Seq<RequestModel>,
    wrong: int,
) -> bool {
    let n = t.current_frame;
    let now = k.timeline.current_frame;
    &&& k.settled <= wrong <= now
    &&& wrong <= n <= now + 1
    &&& wrong < now ==> wrong < n
    &&& t.capacity == k.timeline.capacity
    &&& t.delta_time == k.timeline.delta_time
    &&& t.state == k.ideal(n)
    &&& used == Seq::new(n as nat, |f: int| k.best_bytes(f))
    &&& forall|g: int| k.settled <= g < n ==> #[trigger] kept(k, t, g)
    &&& done == planned_up_to(k, wrong, n)
    &&& applied_all(k.timeline, done) == (t, true)
}

/// What holds of a session that has just put the local input on record.
pub open spec fn submitted_from(m: SessionModel, k: SessionModel, local_input: u8) -> bool {
    &&& m.wf()
    &&& advance_refusal(m) is None
    &&& m.frames_to_skip == 0
    &&& k == m.submitted(local_input)
}

/// Putting the local input on record changes nothing that was known, and
/// leaves every confirmed frame right.
pub(crate) proof fn lemma_submitted(m: SessionModel, k: SessionModel, local_input: u8)
    requires
        submitted_from(m, k, local_input),
    ensures
        k.players() == m.players(),
        k.received.len() == m.players(),
        k.received[k.local].len() == m.timeline.current_frame + 1,
        forall|p: int, f: int|
            0 <= p < k.players() && 0 <= f < k.received[p].len() ==> (#[trigger] k.received[p][f])
                < 64,
        forall|p: int, f: int|
            #![trigger k.known(p, f)]
            #![trigger k.best_input(p, f)]
            0 <= p < m.players() && 0 <= f && m.known(p, f) ==> k.known(p, f) && k.best_input(
                p,
                f,
            ) == m.best_input(p, f),
        forall|f: int| 0 <= f < m.settled ==> #[trigger] k.right_at(f),
        forall|f: int| 0 <= f <= m.timeline.current_frame ==> k.replayed(f) == m.replayed(f),
        m.timeline.current_frame - m.settled <= m.max_prediction + 1,
        m.timeline.current_frame < u64::MAX,
{
    assert forall|p: int, f: int|
        0 <= p < k.players() && 0 <= f < k.received[p].len() implies (#[trigger] k.received[p][f])
        < 64 by {
        if f < m.received[p].len() {
            assert(m.received[p][f] < 64);
        }
    }
    assert forall|f: int| 0 <= f < m.settled implies #[trigger] k.right_at(f) by {
        assert(m.settled_at(f));
        assert(m.used[f].len() == m.players());
        assert forall|p: int| 0 <= p < m.players() implies k.used[f][p] == k.best_bytes(f)[p] by {
            assert(m.known(p, f) && m.used[f][p] == m.best_input(p, f).input);
        }
        assert(k.used[f] =~= k.best_bytes(f));
    }
}

/// Up to the first wrong frame every frame is right, and the first wrong
/// frame is not.
pub(crate) proof fn lemma_first_wrong(k: SessionModel, from: int)
    requires
        0 <= from <= k.timeline.current_frame,
    ensures
        from <= k.first_wrong(from) <= k.timeline.current_frame,
        forall|f: int| from <= f < k.first_wrong(from) ==> #[trigger] k.right_at(f),
        k.first_wrong(from) < k.timeline.current_frame ==> !k.right_at(k.first_wrong(from)),
    decreases k.timeline.current_frame - from,
{
    if from < k.timeline.current_frame && k.right_at(from) {
        lemma_first_wrong(k, from + 1);
    }
}

/// What the rerun of a tick needs of the session: the match at frame zero is
/// in order, the frame counter has not run out, and the history has room
/// for every frame from the first that is not confirmed to the current one.
pub open spec fn prepared(k: SessionModel) -> bool {
    &&& k.initial.wf()
    &&& k.initial.driven_by(k.players())
    &&& 0 <= k.settled <= k.timeline.current_frame < u64::MAX
    &&& k.timeline.current_frame - k.settled <= k.max_prediction + 1
    &&& k.timeline.capacity == k.max_prediction + 2
}

/// Where no frame is wrong, the tick starts from the match as it stands.
pub(crate) proof fn lemma_rerun_starts(m: SessionModel, k: SessionModel, local_input: u8)
    requires
        submitted_from(m, k, local_input),
        k.first_wrong(k.settled) == k.timeline.current_frame,
    ensures
        prepared(k),
        rerunning(k, k.timeline, k.used, Seq::empty(), k.timeline.current_frame),
{
    reveal(rerunning);
    let now = k.timeline.current_frame;
    lemma_submitted(m, k, local_input);
    lemma_first_wrong(k, k.settled);
    assert forall|f: int| 0 <= f < now implies #[trigger] k.right_at(f) by {}
    assert(k.used =~= Seq::new(now as nat, |f: int| k.best_bytes(f))) by {
        assert forall|f: int| 0 <= f < now implies k.used[f] == k.best_bytes(f) by {
            assert(k.right_at(f));
        }
    }
    lemma_replayed_is_ideal(k, now);
    assert forall|g: int| k.settled <= g < now implies #[trigger] kept(k, k.timeline, g) by {
        assert(m.archived_at(g));
        lemma_replayed_is_ideal(k, g);
    }
}

/// Where a frame is wrong, the tick starts by loading the match as it was
/// before that frame and running the frame again.
pub(crate) proof fn lemma_rerun_rewinds(m: SessionModel, k: SessionModel, local_input: u8, wrong: int)
    requires
        submitted_from(m, k, local_input),
        wrong == k.first_wrong(k.settled),
        wrong < k.timeline.current_frame,
    ensures
        prepared(k),
        k.settled <= wrong,
        k.best(wrong).len() == k.players(),
        ({
            let load = RequestModel::LoadGameState { frame: wrong };
            let advance = RequestModel::AdvanceFrame { inputs: k.best(wrong) };
            let loaded = applied(k.timeline, load);
            &&& !refused(k.timeline, load)
            &&& !refused(loaded, advance)
            &&& loaded.state.driven_by(k.players())
            &&& rerunning(
                k,
                applied(loaded, advance),
                k.used.take(wrong).push(k.best_bytes(wrong)),
                seq![load, advance],
                wrong,
            )
        }),
{
    reveal(rerunning);
    let now = k.timeline.current_frame;
    let load = RequestModel::LoadGameState { frame: wrong };
    let advance = RequestModel::AdvanceFrame { inputs: k.best(wrong) };
    let loaded = applied(k.timeline, load);
    let t = applied(loaded, advance);
    let used = k.used.take(wrong).push(k.best_bytes(wrong));
    let done = seq![load, advance];
    lemma_submitted(m, k, local_input);
    lemma_first_wrong(k, k.settled);
    assert forall|f: int| 0 <= f < wrong implies #[trigger] k.right_at(f) by {}
    assert(m.archived_at(wrong));
    lemma_replayed_is_ideal(k, wrong);
    assert(loaded.state == k.ideal(wrong));
    lemma_ideal_wf(k, wrong);
    lemma_ideal_step(k, wrong);
    assert(t.state == k.ideal(wrong + 1));
    assert(used =~= Seq::new((wrong + 1) as nat, |f: int| k.best_bytes(f))) by {
        assert forall|f: int| 0 <= f < wrong implies used[f] == k.best_bytes(f) by {
            assert(k.right_at(f));
        }
    }
    assert forall|g: int| k.settled <= g < wrong + 1 implies #[trigger] kept(k, t, g) by {
        assert(m.archived_at(g));
        if g < wrong {
            lemma_replayed_is_ideal(k, g);
        }
    }
    assert(k.rerun(wrong + 1, wrong + 1) =~= Seq::<RequestModel>::empty());
    assert(done =~= planned_up_to(k, wrong, wrong + 1));
    assert(applied_all(k.timeline, done) == (t, true)) by {
        lemma_applied_last(k.timeline, Seq::<RequestModel>::empty(), load);
        assert(Seq::<RequestModel>::empty().push(load) =~= seq![load]);
        lemma_applied_last(k.timeline, seq![load], advance);
        assert(seq![load].push(advance) =~= done);
    }
}

/// While the timeline has not passed the current frame of the session, the
/// tick goes on by saving the match and running its frame under the best
/// that is known.
pub(crate) proof fn lemma_rerun_steps(
    k: SessionModel,
    t: TimelineModel,
    used: Seq<Seq<u8>>,
    done: Seq<RequestModel>,
    wrong: int,
)
    requires
        prepared(k),
        rerunning(k, t, used, done, wrong),
        t.current_frame <= k.timeline.current_frame,
    ensures
        ({
            let save = RequestModel::SaveGameState { frame: t.current_frame };
            let advance = RequestModel::AdvanceFrame { inputs: k.best(t.current_frame) };
            let saved = applied(t, save);
            &&& !refused(t, save)
            &&& !refused(saved, advance)
            &&& t.state.driven_by(k.players())
            &&& t.current_frame < u64::MAX
            &&& k.best(t.current_frame).len() == k.players()
            &&& rerunning(
                k,
                applied(saved, advance),
                used.push(k.best_bytes(t.current_frame)),
                done.push(save).push(advance),
                wrong,
            )
        }),
{
    reveal(rerunning);
    let n = t.current_frame;
    let now = k.timeline.current_frame;
    let save = RequestModel::SaveGameState { frame: n };
    let advance = RequestModel::AdvanceFrame { inputs: k.best(n) };
    let saved = applied(t, save);
    let next = applied(saved, advance);
    let longer = used.push(k.best_bytes(n));
    lemma_ideal_wf(k, n);
    lemma_ideal_step(k, n);
    assert(next.state == k.ideal(n + 1));
    assert(longer =~= Seq::new((n + 1) as nat, |f: int| k.best_bytes(f)));
    lemma_saved_is_found(t.history, t.capacity, n, t.state);
    assert forall|g: int| k.settled <= g < n + 1 implies #[trigger] kept(k, next, g) by {
        if g < n {
            assert(kept(k, t, g));
            lemma_cells_differ(g, n, t.capacity);
        }
    }
    assert(done.push(save).push(advance) =~= planned_up_to(k, wrong, n + 1)) by {
        if wrong < now {
            assert(k.rerun(wrong + 1, n + 1) == k.rerun(wrong + 1, n).push(save).push(advance));
        } else {
            assert(k.rerun(now, n + 1) == k.rerun(now, n).push(save).push(advance));
        }
    }
    lemma_applied_last(k.timeline, done, save);
    lemma_applied_last(k.timeline, done.push(save), advance);
}

/// With the local input on record and the next frame current, at least as
/// many frames are known of every player as before.
pub(crate) proof fn lemma_known_grows(m: SessionModel, after: SessionModel)
    requires
        m.shaped(),
        after.peers == m.peers,
        after.received.len() == m.received.len(),
        forall|p: int|
            0 <= p < m.players() ==> (#[trigger] after.received[p]).len() >= m.received[p].len(),
        after.timeline.current_frame >= m.timeline.current_frame,
    ensures
        after.known_of_all() >= m.known_of_all(),
{
    lemma_known_of_first(m, m.players());
    assert forall|p: int| 0 <= p < m.players() implies m.known_of_all()
        <= #[trigger] after.known_frames(p) by {
        assert(m.known_of_all() <= m.known_frames(p));
        assert(after.received[p].len() >= m.received[p].len());
    }
    lemma_known_of_first_is_largest(after, m.players(), m.known_of_all());
}

/// The confirmed frames are among those that are known of every player.
pub(crate) proof fn lemma_settled_is_known(m: SessionModel)
    requires
        m.wf(),
    ensures
        m.settled <= m.known_of_all(),
{
    assert forall|p: int| 0 <= p < m.players() implies m.settled <= #[trigger] m.known_frames(
        p,
    ) by {
        if m.settled > 0 {
            assert(m.settled_at(m.settled - 1));
            assert(m.known(p, m.settled - 1));
        }
    }
    lemma_known_of_first_is_largest(m, m.players(), m.settled);
}

/// Once the timeline has passed the current frame of the session, the tick
/// is over: the requests of the tick have been carried out, the session is
/// well formed again, and its match is what the best-known inputs make of
/// the match at frame zero.
pub(crate) proof fn lemma_rerun_ends(
    m: SessionModel,
    k: SessionModel,
    local_input: u8,
    t: TimelineModel,
    used: Seq<Seq<u8>>,
    done: Seq<RequestModel>,
)
    requires
        submitted_from(m, k, local_input),
        rerunning(k, t, used, done, k.first_wrong(k.settled)),
        t.current_frame == k.timeline.current_frame + 1,
    ensures
        done == k.planned(),
        done == requested(m, local_input),
        ran(m, local_input).timeline == t,
        ran(m, local_input).used == used,
        ran(m, local_input) == ticked(m, local_input),
        ran(m, local_input).wf(),
        ran(m, local_input).caught_up(),
        ran(m, local_input).timeline.state == ran(m, local_input).ideal(t.current_frame),
        ran(m, local_input).settled >= m.settled,
{
    reveal(rerunning);
    let now = k.timeline.current_frame;
    let after = ran(m, local_input);
    lemma_submitted(m, k, local_input);
    lemma_first_wrong(k, k.settled);
    assert(after.timeline == t);
    assert(after.used == used);
    assert(after.received == k.received);
    assert(after.peers == k.peers);
    assert forall|f: int| after.best_bytes(f) == k.best_bytes(f) by {
        assert(after.best_bytes(f) =~= k.best_bytes(f));
    }
    assert forall|f: int| after.best(f) == k.best(f) by {
        assert(after.best(f) =~= k.best(f));
    }
    assert forall|n: int| 0 <= n implies after.ideal(n) == k.ideal(n) by {
        assert(Seq::new(n as nat, |f: int| after.best(f)) =~= Seq::new(
            n as nat,
            |f: int| k.best(f),
        ));
    }
    assert forall|f: int| 0 <= f < now + 1 implies #[trigger] after.right_at(f) by {}
    assert(after.shaped()) by {
        assert forall|f: int| 0 <= f < after.used.len() implies (#[trigger] after.used[f]).len()
            == after.players() by {}
    }
    lemma_replayed_is_ideal(after, now + 1);
    assert(after.faithful());
    lemma_settled_is_known(m);
    lemma_known_grows(
        m,
        SessionModel { timeline: after.timeline, used: after.used, ..k },
    );
    lemma_known_of_first(
        SessionModel { timeline: after.timeline, used: after.used, ..k },
        m.players(),
    );
    assert(after.bounded());
    assert forall|f: int| 0 <= f < after.settled implies #[trigger] after.settled_at(f) by {
        assert(after.right_at(f));
        assert forall|p: int|
            #![trigger after.known(p, f)]
            #![trigger after.used[f][p]]
            #![trigger after.best_input(p, f)]
            0 <= p < after.players() implies after.known(p, f) && after.used[f][p]
                == after.best_input(p, f).input by {
            lemma_known_below(
                SessionModel { timeline: after.timeline, used: after.used, ..k },
                f,
                p,
            );
        }
    }
    assert forall|f: int|
        after.settled <= f < after.timeline.current_frame implies #[trigger] after.archived_at(
        f,
    ) by {
        assert(kept(k, t, f));
        lemma_replayed_is_ideal(after, f);
    }
}

/// The match of a session that has caught up is what the best-known inputs
/// make of the match at frame zero.
pub proof fn lemma_match_follows_inputs(m: SessionModel)
    requires
        m.wf(),
        m.caught_up(),
    ensures
        m.timeline.state == m.ideal(m.timeline.current_frame),
{
    lemma_replayed_is_ideal(m, m.timeline.current_frame);
}

/// The inputs of the first `frames` frames have arrived of every player.
pub open spec fn all_arrived(m: SessionModel, frames: int) -> bool {
    forall|p: int| 0 <= p < m.players() ==> frames <= (#[trigger] m.received[p]).len()
}

/// Two peers that started from the same match, and to whom the same inputs
/// of the first `frames` frames have arrived, make the same match of these
/// frames, whatever else they know or guess.
pub proof fn lemma_peers_agree(a: SessionModel, b: SessionModel, frames: int)
    requires
        0 <= frames,
        a.initial == b.initial,
        a.timeline.delta_time == b.timeline.delta_time,
        a.players() == b.players(),
        all_arrived(a, frames),
        all_arrived(b, frames),
        forall|p: int, f: int|
            0 <= p < a.players() && 0 <= f < frames ==> (#[trigger] a.received[p][f])
                == b.received[p][f],
    ensures
        a.ideal(frames) == b.ideal(frames),
{
    assert(Seq::new(frames as nat, |f: int| a.best(f)) =~= Seq::new(
        frames as nat,
        |f: int| b.best(f),
    )) by {
        assert forall|f: int| 0 <= f < frames implies a.best(f) == b.best(f) by {
            assert forall|p: int| 0 <= p < a.players() implies a.best_input(p, f) == b.best_input(
                p,
                f,
            ) by {
                assert(frames <= a.received[p].len());
                assert(frames <= b.received[p].len());
                assert(a.received[p][f] == b.received[p][f]);
            }
            assert(a.best(f) =~= b.best(f));
        }
    }
}

/// A session that has caught up holds in its history, for each frame that
/// is not confirmed, the match that the best-known inputs make of the
/// frames before it.
pub proof fn lemma_history_follows_inputs(m: SessionModel, frame: int)
    requires
        m.wf(),
        m.caught_up(),
        m.settled <= frame < m.timeline.current_frame,
    ensures
        m.timeline.history.contains_key(frame),
        m.timeline.history[frame] == m.ideal(frame),
{
    assert(m.archived_at(frame));
    lemma_replayed_is_ideal(m, frame);
}

/// Once a session has run beyond its prediction window, it refuses every
/// further tick with the same error, whatever happens in between.
pub proof fn lemma_halt_is_final(m: SessionModel, local_input: u8, event: Event)
    requires
        m.halted,
    ensures
        advance_refusal(m) == Some(SessionError::PredictionThreshold),
        ticked(m, local_input) == m,
        event_refusal(m, event) is None ==> notified(m, event).halted,
{
}

/// The count of confirmed frames never goes down.
pub proof fn lemma_confirmed_is_monotonic(m: SessionModel, local_input: u8, event: Event)
    requires
        m.wf(),
    ensures
        ticked(m, local_input).settled >= m.settled,
        event_refusal(m, event) is None ==> notified(m, event).settled == m.settled,
{
    if advance_refusal(m) is None && m.frames_to_skip == 0 {
        lemma_planned_moves_on(m, m.submitted(local_input), local_input);
    }
}

/// The requests of a tick all fit, and leave the timeline one frame further
/// than it was.
pub(crate) proof fn lemma_planned_moves_on(m: SessionModel, k: SessionModel, local_input: u8)
    requires
        submitted_from(m, k, local_input),
    ensures
        applied_all(k.timeline, k.planned()).1,
        applied_all(k.timeline, k.planned()).0.current_frame == m.timeline.current_frame + 1,
        applied_all(k.timeline, k.planned()).0 == ran(m, local_input).timeline,
        ran(m, local_input).wf(),
        ran(m, local_input).caught_up(),
        ran(m, local_input).settled >= m.settled,
{
    let now = k.timeline.current_frame;
    let wrong = k.first_wrong(k.settled);
    lemma_submitted(m, k, local_input);
    lemma_first_wrong(k, k.settled);
    if wrong < now {
        lemma_rerun_rewinds(m, k, local_input, wrong);
        let load = RequestModel::LoadGameState { frame: wrong };
        let advance = RequestModel::AdvanceFrame { inputs: k.best(wrong) };
        let t = applied(applied(k.timeline, load), advance);
        let used = k.used.take(wrong).push(k.best_bytes(wrong));
        lemma_rerun_runs(m, k, local_input, t, used, seq![load, advance], now - wrong);
    } else {
        lemma_rerun_starts(m, k, local_input);
        lemma_rerun_runs(m, k, local_input, k.timeline, k.used, Seq::empty(), 1);
    }
}

/// A tick that stands `left` frames before its end comes to its end.
pub(crate) proof fn lemma_rerun_runs(
    m: SessionModel,
    k: SessionModel,
    local_input: u8,
    t: TimelineModel,
    used: Seq<Seq<u8>>,
    done: Seq<RequestModel>,
    left: int,
)
    requires
        submitted_from(m, k, local_input),
        prepared(k),
        rerunning(k, t, used, done, k.first_wrong(k.settled)),
        left == k.timeline.current_frame + 1 - t.current_frame,
        left >= 0,
    ensures
        applied_all(k.timeline, k.planned()).1,
        applied_all(k.timeline, k.planned()).0.current_frame == m.timeline.current_frame + 1,
        applied_all(k.timeline, k.planned()).0 == ran(m, local_input).timeline,
        ran(m, local_input).wf(),
        ran(m, local_input).caught_up(),
        ran(m, local_input).settled >= m.settled,
    decreases left,
{
    if left == 0 {
        lemma_rerun_ends(m, k, local_input, t, used, done);
        assert(applied_all(k.timeline, done) == (t, true)) by {
            reveal(rerunning);
        }
    } else {
        lemma_rerun_steps(k, t, used, done, k.first_wrong(k.settled));
        let save = RequestModel::SaveGameState { frame: t.current_frame };
        let advance = RequestModel::AdvanceFrame { inputs: k.best(t.current_frame) };
        lemma_rerun_runs(
            m,
            k,
            local_input,
            applied(applied(t, save), advance),
            used.push(k.best_bytes(t.current_frame)),
            done.push(save).push(advance),
            left - 1,
        );
    }
}

/// A tick that is neither refused nor skipped leaves a session well formed
/// and caught up: its match is what the best-known inputs make of the match
/// at frame zero.
pub proof fn lemma_ticked_catches_up(m: SessionModel, local_input: u8)
    requires
        m.wf(),
        advance_refusal(m) is None,
        m.frames_to_skip == 0,
    ensures
        ticked(m, local_input).wf(),
        ticked(m, local_input).caught_up(),
        ticked(m, local_input).timeline.current_frame == m.timeline.current_frame + 1,
        ticked(m, local_input).timeline.state == ticked(m, local_input).ideal(
            m.timeline.current_frame + 1,
        ),
{
    lemma_planned_moves_on(m, m.submitted(local_input), local_input);
    lemma_match_follows_inputs(ran(m, local_input));
}

} // verus!
