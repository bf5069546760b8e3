//! What the loop-track state machine promises across calls.

use vstd::prelude::*;
use crate::looper::track::{MAX_LAYERS, TrackCommand, TrackModel, TrackState, silent_layer};

verus! {

/// The track after recording `frames` one after the other.
pub open spec fn record_frames<S>(t: TrackModel<S>, pending: Option<usize>, frames: Seq<(S, S)>) -> (
    TrackModel<S>,
    Option<usize>,
)
    decreases frames.len(),
{
    if frames.len() == 0 {
        (t, pending)
    } else {
        let (t1, p1) = record_frames(t, pending, frames.drop_last());
        t1.after_record_frame(p1, frames.last().0, frames.last().1)
    }
}

/// The track after `k` audible playback frames.
pub open spec fn play_frames<S>(t: TrackModel<S>, k: nat) -> TrackModel<S>
    decreases k,
{
    if k == 0 {
        t
    } else {
        play_frames(t, (k - 1) as nat).advanced()
    }
}

/// A state survives its published number, and every number names a state
/// (unknown numbers read as Empty); the same holds for commands.
pub proof fn lemma_codes_round_trip(s: TrackState, c: TrackCommand, v: u32)
    ensures
        TrackState::from_code(s.code()) == s,
        v <= 4 ==> TrackState::from_code(v).code() == v,
        v > 4 ==> TrackState::from_code(v) == TrackState::Empty,
        TrackCommand::from_code(c.code()) == c,
        v <= 5 ==> TrackCommand::from_code(v).code() == v,
        v > 5 ==> TrackCommand::from_code(v) == TrackCommand::Idle,
{
}

/// A submitted command is what the next take hands back, and a take leaves
/// nothing queued; the rest of the track is untouched by either.
pub proof fn lemma_submit_then_take<S>(t: TrackModel<S>, cmd: TrackCommand)
    ensures
        ({
            let queued = TrackModel { command: cmd, ..t };
            let taken = TrackModel { command: TrackCommand::Idle, ..queued };
            &&& queued.command == cmd
            &&& taken == TrackModel { command: TrackCommand::Idle, ..t }
            &&& taken.layers == t.layers && taken.state == t.state && taken.cursor == t.cursor
        }),
{
}

/// Every command keeps a well-formed track well-formed; in particular no
/// command pushes the finalised layer count past `MAX_LAYERS` or the loop
/// past the layer capacity (one frame for a track without room).
pub proof fn lemma_command_keeps_wf<S>(
    t: TrackModel<S>,
    pending: Option<usize>,
    cmd: TrackCommand,
    sync_on: bool,
    bars_target: u32,
    bar_samples: usize,
)
    requires
        t.wf(),
    ensures
        t.after_command(pending, cmd, sync_on, bars_target, bar_samples).0.wf(),
        t.after_command(pending, cmd, sync_on, bars_target, bar_samples).0.layer_count <= MAX_LAYERS,
        t.after_command(pending, cmd, sync_on, bars_target, bar_samples).0.length <= t.max_length(),
{
    lemma_wiped_wf(t, t.layer_count);
    if t.layer_count > 0 {
        lemma_wiped_wf(t, (t.layer_count - 1) as nat);
    }
    assert(t.cleared().wf());
}

proof fn lemma_wiped_wf<S>(t: TrackModel<S>, l: nat)
    requires
        t.wf(),
    ensures
        t.wiped(l).wf(),
        t.wiped(l).layer_count == t.layer_count,
        t.wiped(l).length == t.length,
        t.wiped(l).cursor == t.cursor,
{
}

/// Rec on an Empty or Stopped track starts a fresh recording with every
/// layer silent, whatever the sync settings.
pub proof fn lemma_rec_starts_recording<S>(
    t: TrackModel<S>,
    pending: Option<usize>,
    sync_on: bool,
    bars_target: u32,
    bar_samples: usize,
)
    requires
        t.wf(),
        t.state == TrackState::Empty || t.state == TrackState::Stopped,
    ensures
        ({
            let (r, p) = t.after_command(pending, TrackCommand::Rec, sync_on, bars_target, bar_samples);
            &&& r.state == TrackState::Recording
            &&& r.cursor == 0 && r.length == 0 && r.layer_count == 0
            &&& forall|l: int| 0 <= l < MAX_LAYERS ==> #[trigger] r.layers[l] == silent_layer(2 * t.capacity, t.silence)
            &&& p == pending
        }),
{
}

/// The second Rec press without Sync locks the loop at the frames recorded
/// so far (at least one) with layer 0 as the only finalised layer, and
/// playback starts from the top.
pub proof fn lemma_second_rec_locks_loop<S>(
    t: TrackModel<S>,
    pending: Option<usize>,
    bars_target: u32,
    bar_samples: usize,
)
    requires
        t.wf(),
        t.state == TrackState::Recording,
    ensures
        ({
            let (r, p) = t.after_command(pending, TrackCommand::Rec, false, bars_target, bar_samples);
            &&& r.state == TrackState::Playing
            &&& r.layer_count == 1
            &&& r.length == if t.cursor > 1 { t.cursor } else { 1 }
            &&& r.cursor == 0
            &&& r.layers == t.layers
            &&& p == pending
        }),
{
}

/// With Sync on and a bar count set, the second Rec press locks the loop at
/// exactly that many bars, cut to the layer capacity, keeping the take.
pub proof fn lemma_fixed_bars_lock<S>(t: TrackModel<S>, pending: Option<usize>, bars_target: u32, bar_samples: usize)
    requires
        t.wf(),
        t.state == TrackState::Recording,
        bars_target > 0,
    ensures
        ({
            let (r, p) = t.after_command(pending, TrackCommand::Rec, true, bars_target, bar_samples);
            &&& r.state == TrackState::Playing
            &&& r.layer_count == 1
            &&& r.length == if bars_target * bar_samples < t.capacity { bars_target * bar_samples } else { t.capacity as int }
            &&& r.cursor == 0
            &&& r.layers == t.layers
            &&& p == pending
        }),
{
}

/// Overdub on a Playing track with room opens a layer; Overdub again commits
/// it: one more finalised layer, the earlier ones untouched.
pub proof fn lemma_overdub_round_adds_layer<S>(
    t: TrackModel<S>,
    pending: Option<usize>,
    sync_on: bool,
    bars_target: u32,
    bar_samples: usize,
)
    requires
        t.wf(),
        t.state == TrackState::Playing,
        t.layer_count < MAX_LAYERS,
    ensures
        ({
            let (m, pm) = t.after_command(pending, TrackCommand::Overdub, sync_on, bars_target, bar_samples);
            let (r, pr) = m.after_command(pm, TrackCommand::Overdub, sync_on, bars_target, bar_samples);
            &&& m.state == TrackState::Overdubbing
            &&& m.layers[t.layer_count as int] == silent_layer(2 * t.capacity, t.silence)
            &&& r.state == TrackState::Playing
            &&& r.layer_count == t.layer_count + 1
            &&& !r.overdub_active
            &&& forall|l: int| 0 <= l < t.layer_count ==> #[trigger] r.layers[l] == t.layers[l]
            &&& pr == pending
        }),
{
}

/// With the layer stack full, Overdub leaves a Playing track as it is.
pub proof fn lemma_overdub_full_stack_is_noop<S>(
    t: TrackModel<S>,
    pending: Option<usize>,
    sync_on: bool,
    bars_target: u32,
    bar_samples: usize,
)
    requires
        t.wf(),
        t.state == TrackState::Playing,
        t.layer_count == MAX_LAYERS,
    ensures
        t.after_command(pending, TrackCommand::Overdub, sync_on, bars_target, bar_samples) == (t, pending),
{
}

/// Undo during an overdub cancels it: the track plays on with the same
/// finalised layers, and the abandoned layer is silent.
pub proof fn lemma_undo_cancels_overdub<S>(
    t: TrackModel<S>,
    pending: Option<usize>,
    sync_on: bool,
    bars_target: u32,
    bar_samples: usize,
)
    requires
        t.wf(),
        t.state == TrackState::Playing,
        t.layer_count < MAX_LAYERS,
    ensures
        ({
            let (m, pm) = t.after_command(pending, TrackCommand::Overdub, sync_on, bars_target, bar_samples);
            let (r, pr) = m.after_command(pm, TrackCommand::Undo, sync_on, bars_target, bar_samples);
            &&& r.state == TrackState::Playing
            &&& r.layer_count == t.layer_count
            &&& !r.overdub_active
            &&& r.length == t.length && r.cursor == t.cursor
            &&& forall|l: int| 0 <= l < t.layer_count ==> #[trigger] r.layers[l] == t.layers[l]
            &&& r.layers[t.layer_count as int] == silent_layer(2 * t.capacity, t.silence)
            &&& pr == pending
        }),
{
}

/// Undo with no overdub in progress drops the last finalised layer (which is
/// silenced); dropping the last one empties the track.
pub proof fn lemma_undo_pops_layer<S>(
    t: TrackModel<S>,
    pending: Option<usize>,
    sync_on: bool,
    bars_target: u32,
    bar_samples: usize,
)
    requires
        t.wf(),
        !t.overdub_active,
        t.layer_count > 0,
    ensures
        ({
            let (r, p) = t.after_command(pending, TrackCommand::Undo, sync_on, bars_target, bar_samples);
            &&& r.layer_count == t.layer_count - 1
            &&& r.layers[t.layer_count - 1] == silent_layer(2 * t.capacity, t.silence)
            &&& forall|l: int| 0 <= l < t.layer_count - 1 ==> #[trigger] r.layers[l] == t.layers[l]
            &&& (t.layer_count == 1 ==> r.state == TrackState::Empty && r.length == 0 && r.cursor == 0)
            &&& (t.layer_count > 1 ==> r.state == t.state)
            &&& p == pending
        }),
{
}

/// Undo takes back a whole overdub pass: a Playing track whose next layer
/// slot is silent comes back exactly as it was after Overdub, Overdub, Undo.
pub proof fn lemma_undo_reverts_overdub_round<S>(
    t: TrackModel<S>,
    pending: Option<usize>,
    sync_on: bool,
    bars_target: u32,
    bar_samples: usize,
)
    requires
        t.wf(),
        t.state == TrackState::Playing,
        !t.overdub_active,
        0 < t.layer_count < MAX_LAYERS,
        t.layers[t.layer_count as int] == silent_layer(2 * t.capacity, t.silence),
    ensures
        ({
            let (m1, p1) = t.after_command(pending, TrackCommand::Overdub, sync_on, bars_target, bar_samples);
            let (m2, p2) = m1.after_command(p1, TrackCommand::Overdub, sync_on, bars_target, bar_samples);
            m2.after_command(p2, TrackCommand::Undo, sync_on, bars_target, bar_samples) == (t, pending)
        }),
{
    let lc = t.layer_count as int;
    assert(t.layers.update(lc, silent_layer(2 * t.capacity, t.silence)) =~= t.layers);
}

/// Undo with no finalised layer and no overdub in progress cancels the
/// track: a take being recorded is dropped and the track is Empty, with
/// nothing to play and its buffers as they were.
pub proof fn lemma_undo_without_layers_empties<S>(
    t: TrackModel<S>,
    pending: Option<usize>,
    sync_on: bool,
    bars_target: u32,
    bar_samples: usize,
)
    requires
        t.wf(),
        !t.overdub_active,
        t.layer_count == 0,
    ensures
        ({
            let (r, p) = t.after_command(pending, TrackCommand::Undo, sync_on, bars_target, bar_samples);
            &&& r.state == TrackState::Empty
            &&& r.length == 0 && r.cursor == 0 && r.layer_count == 0
            &&& r.layers == t.layers
            &&& p == pending
        }),
{
}

/// Clear empties any track: every layer silent, nothing recorded.
pub proof fn lemma_clear_empties<S>(
    t: TrackModel<S>,
    pending: Option<usize>,
    sync_on: bool,
    bars_target: u32,
    bar_samples: usize,
)
    requires
        t.wf(),
    ensures
        ({
            let (r, p) = t.after_command(pending, TrackCommand::Clear, sync_on, bars_target, bar_samples);
            &&& r.state == TrackState::Empty
            &&& r.layer_count == 0 && r.length == 0 && r.cursor == 0
            &&& !r.overdub_active
            &&& forall|l: int| 0 <= l < MAX_LAYERS ==> #[trigger] r.layers[l] == silent_layer(2 * t.capacity, t.silence)
            &&& p == pending
        }),
{
}

/// Play/Stop stops a track in any state but Stopped, keeping its layers,
/// loop and position; on a stopped track it restarts playback from the top.
pub proof fn lemma_play_stop_from_any_state<S>(
    t: TrackModel<S>,
    pending: Option<usize>,
    sync_on: bool,
    bars_target: u32,
    bar_samples: usize,
)
    requires
        t.wf(),
    ensures
        ({
            let (r, p) = t.after_command(pending, TrackCommand::PlayStop, sync_on, bars_target, bar_samples);
            &&& t.state != TrackState::Stopped ==> r == t.with_state(TrackState::Stopped)
            &&& t.state == TrackState::Stopped ==> r.state == TrackState::Playing && r.cursor == 0
                && r.layers == t.layers && r.layer_count == t.layer_count && r.length == t.length
            &&& p == pending
        }),
{
}

/// Play/Stop twice on a playing track stops it and restarts it from the top
/// of the loop with its layers intact.
pub proof fn lemma_stop_then_play_restarts<S>(
    t: TrackModel<S>,
    pending: Option<usize>,
    sync_on: bool,
    bars_target: u32,
    bar_samples: usize,
)
    requires
        t.wf(),
        t.state == TrackState::Playing,
    ensures
        ({
            let (m, pm) = t.after_command(pending, TrackCommand::PlayStop, sync_on, bars_target, bar_samples);
            let (r, pr) = m.after_command(pm, TrackCommand::PlayStop, sync_on, bars_target, bar_samples);
            &&& m.state == TrackState::Stopped
            &&& r.state == TrackState::Playing
            &&& r.cursor == 0
            &&& r.layers == t.layers && r.layer_count == t.layer_count && r.length == t.length
            &&& pr == pending
        }),
{
}

proof fn lemma_record_frame_wf<S>(t: TrackModel<S>, pending: Option<usize>, l: S, r: S)
    requires
        t.wf(),
    ensures
        t.after_record_frame(pending, l, r).0.wf(),
{
    if t.state == TrackState::Recording && t.cursor < t.capacity {
        let c = t.cursor as int;
        assert(2 * c + 1 < 2 * t.capacity);
    }
}

/// Recording frames into a fresh recording (no quantised stop pending) puts
/// frame `i` at position `i` of layer 0, for as many frames as the layer
/// holds; the loop length follows the cursor, and no other layer changes.
pub proof fn lemma_recording_stores_frames<S>(t: TrackModel<S>, frames: Seq<(S, S)>)
    requires
        t.wf(),
        t.state == TrackState::Recording,
        t.cursor == 0,
        t.length == 0,
        frames.len() <= t.capacity,
    ensures
        ({
            let (r, p) = record_frames(t, None, frames);
            &&& r.wf()
            &&& r.capacity == t.capacity && r.silence == t.silence
            &&& r.state == TrackState::Recording
            &&& r.cursor == frames.len() && r.length == frames.len()
            &&& p is None
            &&& r.layer_count == t.layer_count
            &&& forall|i: int| 0 <= i < frames.len() ==> #[trigger] r.layers[0][2 * i] == frames[i].0 && r.layers[0][2 * i + 1] == frames[i].1
            &&& forall|l: int| 1 <= l < MAX_LAYERS ==> #[trigger] r.layers[l] == t.layers[l]
        }),
    decreases frames.len(),
{
    if frames.len() > 0 {
        let prefix = frames.drop_last();
        lemma_recording_stores_frames(t, prefix);
        let (t1, p1) = record_frames(t, None, prefix);
        let x = frames.last().0;
        let y = frames.last().1;
        lemma_record_frame_wf(t1, p1, x, y);
        let n = prefix.len() as int;
        assert(t1.layers[0].len() == 2 * t1.capacity);
        let lay = t1.layers[0].update(2 * n, x).update(2 * n + 1, y);
        let r = record_frames(t, None, frames).0;
        assert(record_frames(t, None, frames) == t1.after_record_frame(p1, x, y));
        assert(r.layers == t1.layers.update(0, lay));
        assert forall|i: int| 0 <= i < frames.len() implies #[trigger] r.layers[0][2 * i] == frames[i].0 && r.layers[0][2 * i + 1] == frames[i].1 by {
            if i < n {
                assert(prefix[i] == frames[i]);
                assert(lay[2 * i] == t1.layers[0][2 * i]);
                assert(lay[2 * i + 1] == t1.layers[0][2 * i + 1]);
            } else {
                assert(frames[i] == frames.last());
            }
        }
        assert(t1.cursor == n && t1.length == n && t1.state == TrackState::Recording && p1 is None);
        assert(n < t1.capacity);
        assert(r.cursor == n + 1);
        assert(r.length == n + 1);
    }
}

/// What recording `frames` under a quantised stop of `bar` frames leaves.
pub open spec fn quantised_outcome<S>(t: TrackModel<S>, bar: usize, frames: Seq<(S, S)>, r: TrackModel<S>, p: Option<usize>) -> bool {
    &&& r.wf()
    &&& r.capacity == t.capacity && r.silence == t.silence
    &&& (frames.len() < bar ==> r.state == TrackState::Recording && r.cursor == frames.len() && p == Some(bar))
    &&& (frames.len() == bar ==> r.state == TrackState::Playing && r.length == bar && r.cursor == 0
        && r.layer_count == 1 && p is None)
    &&& forall|i: int| 0 <= i < frames.len() ==> #[trigger] r.layers[0][2 * i] == frames[i].0 && r.layers[0][2 * i + 1] == frames[i].1
}

/// With Sync's quantised stop armed at `bar` frames, a fresh recording runs
/// exactly one bar: it keeps recording for the first `bar - 1` frames and
/// locks a loop of exactly `bar` frames on the last, disarming the stop.
pub proof fn lemma_quantised_stop_locks_one_bar<S>(t: TrackModel<S>, bar: usize, frames: Seq<(S, S)>)
    requires
        t.wf(),
        t.state == TrackState::Recording,
        t.cursor == 0,
        0 < bar <= t.capacity,
        0 < frames.len() <= bar,
    ensures
        quantised_outcome(t, bar, frames, record_frames(t, Some(bar), frames).0, record_frames(t, Some(bar), frames).1),
    decreases frames.len(),
{
    let prefix = frames.drop_last();
    let n = prefix.len() as int;
    let (t1, p1) = record_frames(t, Some(bar), prefix);
    if prefix.len() == 0 {
        assert(t1 == t && p1 == Some(bar));
    } else {
        lemma_quantised_stop_locks_one_bar(t, bar, prefix);
        assert(quantised_outcome(t, bar, prefix, t1, p1));
    }
    lemma_record_frame_wf(t1, p1, frames.last().0, frames.last().1);
    assert(t1.state == TrackState::Recording && t1.cursor == n && p1 == Some(bar));
    assert(t1.layers[0].len() == 2 * t1.capacity);
    let x = frames.last().0;
    let y = frames.last().1;
    let lay = t1.layers[0].update(2 * n, x).update(2 * n + 1, y);
    let (r, p) = record_frames(t, Some(bar), frames);
    assert(record_frames(t, Some(bar), frames) == t1.after_record_frame(p1, x, y));
    if n + 1 < bar {
        vstd::arithmetic::div_mod::lemma_small_mod((n + 1) as nat, bar as nat);
    } else {
        vstd::arithmetic::div_mod::lemma_mod_self_0(bar as int);
    }
    assert(r.layers[0] == lay);
    assert(r.wf());
    if frames.len() < bar {
        assert(r.state == TrackState::Recording && r.cursor == frames.len() && p == Some(bar));
    } else {
        assert(r.state == TrackState::Playing && r.length == bar && r.cursor == 0 && r.layer_count == 1 && p is None);
    }
    assert forall|i: int| 0 <= i < frames.len() implies #[trigger] r.layers[0][2 * i] == frames[i].0 && r.layers[0][2 * i + 1] == frames[i].1 by {
        if i < n {
            assert(prefix[i] == frames[i]);
            assert(lay[2 * i] == t1.layers[0][2 * i]);
            assert(lay[2 * i + 1] == t1.layers[0][2 * i + 1]);
        } else {
            assert(frames[i] == frames.last());
        }
    }
    assert(r.capacity == t.capacity && r.silence == t.silence);
    assert(quantised_outcome(t, bar, frames, r, p));
}

/// Playback walks the loop one frame per audible sample and wraps at the
/// loop length: after `k` frames the cursor sits at `(start + k) mod
/// length`, so after `length` frames it is back where it started.
pub proof fn lemma_playback_wraps<S>(t: TrackModel<S>, k: nat)
    requires
        t.length > 0,
        t.cursor < t.length,
    ensures
        play_frames(t, k).cursor == (t.cursor + k) % t.length,
        play_frames(t, t.length).cursor == t.cursor,
        play_frames(t, k).layers == t.layers && play_frames(t, k).state == t.state && play_frames(t, k).length
            == t.length,
    decreases k,
{
    lemma_playback_cursor(t, k);
    lemma_playback_cursor(t, t.length);
    assert((t.cursor + t.length) % t.length == t.cursor) by (nonlinear_arith)
        requires
            t.cursor < t.length,
            t.length > 0,
    {
    }
}

proof fn lemma_playback_cursor<S>(t: TrackModel<S>, k: nat)
    requires
        t.length > 0,
        t.cursor < t.length,
    ensures
        play_frames(t, k).cursor == (t.cursor + k) % t.length,
        play_frames(t, k).layers == t.layers && play_frames(t, k).state == t.state && play_frames(t, k).length
            == t.length,
    decreases k,
{
    if k == 0 {
        vstd::arithmetic::div_mod::lemma_small_mod(t.cursor, t.length);
    } else {
        lemma_playback_cursor(t, (k - 1) as nat);
        let len = t.length as int;
        let c = t.cursor as int;
        let k1 = k - 1;
        let prev = play_frames(t, (k - 1) as nat);
        assert(play_frames(t, k) == prev.advanced());
        assert(prev.cursor == (c + k1) % len);
        vstd::arithmetic::div_mod::lemma_add_mod_noop_right(1, c + k1, len);
        assert((1 + (c + k1) % len) % len == (1 + (c + k1)) % len);
        assert(1 + c + k1 == c + k);
        assert(prev.advanced().cursor == (prev.cursor + 1) % prev.length);
        assert((prev.cursor + 1) % prev.length == (1 + (c + k1) % len) % len);
        assert((c + k) % len == (t.cursor + k) % t.length);
    }
}

/// Commands out of their states do nothing: Rec on a Playing or
/// Overdubbing track, Overdub on an Empty, Recording or Stopped track, and
/// an empty command anywhere leave the track and its quantised stop as they
/// are.
pub proof fn lemma_commands_out_of_state_do_nothing<S>(
    t: TrackModel<S>,
    pending: Option<usize>,
    sync_on: bool,
    bars_target: u32,
    bar_samples: usize,
)
    requires
        t.wf(),
    ensures
        (t.state == TrackState::Playing || t.state == TrackState::Overdubbing) ==> t.after_command(
            pending,
            TrackCommand::Rec,
            sync_on,
            bars_target,
            bar_samples,
        ) == (t, pending),
        (t.state == TrackState::Empty || t.state == TrackState::Recording || t.state == TrackState::Stopped)
            ==> t.after_command(pending, TrackCommand::Overdub, sync_on, bars_target, bar_samples) == (t, pending),
        t.after_command(pending, TrackCommand::Idle, sync_on, bars_target, bar_samples) == (t, pending),
{
}

/// With Sync on and no bar count, the second Rec press does not lock yet:
/// recording goes on untouched and the quantised stop is armed with the
/// bar length.
pub proof fn lemma_sync_without_bars_arms_the_stop<S>(t: TrackModel<S>, pending: Option<usize>, bar_samples: usize)
    requires
        t.wf(),
        t.state == TrackState::Recording,
    ensures
        t.after_command(pending, TrackCommand::Rec, true, 0, bar_samples) == (t, Some(bar_samples)),
{
}

/// An input frame only reaches a Recording track, and only while the take
/// has room: a full take keeps its samples, cursor and length (a quantised
/// stop can still lock it on a bar boundary).
pub proof fn lemma_record_frame_needs_room<S>(t: TrackModel<S>, pending: Option<usize>, l: S, r: S)
    requires
        t.wf(),
    ensures
        t.state != TrackState::Recording ==> t.after_record_frame(pending, l, r) == (t, pending),
        t.state == TrackState::Recording && t.cursor >= t.capacity ==> ({
            let (u, _) = t.after_record_frame(pending, l, r);
            u.layers == t.layers && u.length == (if u.state == TrackState::Playing { t.cursor } else { t.length })
        }),
        t.state == TrackState::Recording && t.cursor >= t.capacity && pending is None
            ==> t.after_record_frame(pending, l, r) == (t, pending),
{
}

/// A playing track sounds exactly when it is unmuted and has a loop; a
/// muted or empty loop holds its place.
pub proof fn lemma_mute_holds_playback<S>(t: TrackModel<S>, mute: bool)
    ensures
        t.plays_frame(mute) <==> (t.state == TrackState::Playing && t.length > 0 && !mute),
{
}

/// One overdub frame writes the new samples at the loop position into the
/// layer being recorded (the top slot once the stack is full), leaves every
/// other layer and every other sample alone, and moves on one frame round
/// the loop; that layer is the one `recording_layer` reports while room is
/// left.
pub proof fn lemma_overdub_frame_writes_the_new_layer<S>(t: TrackModel<S>, l: S, r: S)
    requires
        t.wf(),
        t.state == TrackState::Overdubbing,
        t.length > 0,
        t.cursor < t.capacity,
    ensures
        ({
            let u = t.after_overdub_frame(l, r);
            let od = if t.layer_count < MAX_LAYERS - 1 { t.layer_count as int } else { MAX_LAYERS - 1 };
            &&& u.layers[od][2 * (t.cursor as int)] == l
            &&& u.layers[od][2 * (t.cursor as int) + 1] == r
            &&& forall|k: int| 0 <= k < 2 * t.capacity && k != 2 * t.cursor && k != 2 * t.cursor + 1
                ==> #[trigger] u.layers[od][k] == t.layers[od][k]
            &&& forall|m: int| 0 <= m < MAX_LAYERS && m != od ==> #[trigger] u.layers[m] == t.layers[m]
            &&& u.cursor == (t.cursor + 1) % t.length
            &&& u.layer_count == t.layer_count && u.length == t.length && u.state == t.state
            &&& t.overdub_active && t.layer_count < MAX_LAYERS - 1 ==> t.recording_layer() == Some(od as nat)
        }),
{
}

/// A take is recorded into layer 0, and nothing is recorded outside
/// Recording and an active overdub.
pub proof fn lemma_recording_layer_is_written<S>(t: TrackModel<S>)
    ensures
        t.state == TrackState::Recording ==> t.recording_layer() == Some(0nat),
        t.state != TrackState::Recording && !(t.state == TrackState::Overdubbing && t.overdub_active)
            ==> t.recording_layer() is None,
{
}

} // verus!
