use superduper::looper::params::{
    bars_text, midi_cc_to_command, midi_track_command, param_display, pidx, play_stop_label, state_label,
    track_fb_idx, track_level_idx, track_mute_idx, ParamDisplay, GLOBAL_PARAM_COUNT, NO_LAYER, PARAM_COUNT,
    TRACK_COUNT,
};
use superduper::looper::track::{LoopTrack, TrackCommand, TrackState, MAX_LAYERS};

fn record(t: &mut LoopTrack<i32>, pending: &mut Option<usize>, frames: &[(i32, i32)]) {
    for &(l, r) in frames {
        t.record_frame(pending, l, r);
    }
}

fn press(t: &mut LoopTrack<i32>, pending: &mut Option<usize>, cmd: TrackCommand) {
    t.apply_command(pending, cmd, false, 0, 0);
}

#[test]
fn state_codes_round_trip() {
    for v in 0..5u32 {
        assert_eq!(TrackState::from_u32(v).to_u32(), v);
    }
    assert_eq!(TrackState::from_u32(1), TrackState::Recording);
    assert_eq!(TrackState::from_u32(4), TrackState::Stopped);
    assert_eq!(TrackState::from_u32(99), TrackState::Empty);
}

#[test]
fn command_codes_round_trip() {
    for v in 0..6u32 {
        assert_eq!(TrackCommand::from_u32(v).to_u32(), v);
    }
    assert_eq!(TrackCommand::from_u32(2), TrackCommand::PlayStop);
    assert_eq!(TrackCommand::from_u32(5), TrackCommand::Undo);
    assert_eq!(TrackCommand::from_u32(6), TrackCommand::Idle);
}

#[test]
fn new_track_is_empty_and_silent() {
    let t: LoopTrack<i32> = LoopTrack::new(8, 0);
    assert_eq!(t.capacity(), 8);
    assert_eq!(t.state(), TrackState::Empty);
    assert_eq!(t.layer_count(), 0);
    assert_eq!(t.length_frames(), 0);
    assert_eq!(t.cursor(), 0);
    assert!(!t.overdub_active());
    assert_eq!(t.recording_layer(), None);
    for layer in 0..MAX_LAYERS {
        for frame in 0..8 {
            assert_eq!(t.layer_sample(layer, frame, 0), Some(0));
            assert_eq!(t.layer_sample(layer, frame, 1), Some(0));
        }
    }
    assert_eq!(t.layer_sample(MAX_LAYERS, 0, 0), None);
    assert_eq!(t.layer_sample(0, 8, 0), None);
    assert_eq!(t.layer_sample(0, 0, 2), None);
}

#[test]
fn submit_then_take_consumes_the_command() {
    let mut t: LoopTrack<i32> = LoopTrack::new(4, 0);
    t.submit(TrackCommand::Rec);
    t.submit(TrackCommand::Overdub);
    assert_eq!(t.take_command(), TrackCommand::Overdub);
    assert_eq!(t.take_command(), TrackCommand::Idle);
}

#[test]
fn rec_twice_locks_a_free_loop() {
    let mut t: LoopTrack<i32> = LoopTrack::new(16, 0);
    let mut pending = None;
    press(&mut t, &mut pending, TrackCommand::Rec);
    assert_eq!(t.state(), TrackState::Recording);
    assert_eq!(t.recording_layer(), Some(0));
    record(&mut t, &mut pending, &[(1, -1), (2, -2), (3, -3), (4, -4), (5, -5)]);
    assert_eq!(t.cursor(), 5);
    assert_eq!(t.length_frames(), 5);
    press(&mut t, &mut pending, TrackCommand::Rec);
    assert_eq!(t.state(), TrackState::Playing);
    assert_eq!(t.length_frames(), 5);
    assert_eq!(t.cursor(), 0);
    assert_eq!(t.layer_count(), 1);
    assert_eq!(t.layer_sample(0, 2, 0), Some(3));
    assert_eq!(t.layer_sample(0, 2, 1), Some(-3));
}

#[test]
fn rec_twice_without_input_locks_one_frame() {
    let mut t: LoopTrack<i32> = LoopTrack::new(16, 0);
    let mut pending = None;
    press(&mut t, &mut pending, TrackCommand::Rec);
    press(&mut t, &mut pending, TrackCommand::Rec);
    assert_eq!(t.state(), TrackState::Playing);
    assert_eq!(t.length_frames(), 1);
}

#[test]
fn fixed_bars_lock_at_bar_count_times_bar_length() {
    let mut t: LoopTrack<i32> = LoopTrack::new(100, 0);
    let mut pending = None;
    t.apply_command(&mut pending, TrackCommand::Rec, true, 2, 12);
    record(&mut t, &mut pending, &[(1, 1), (2, 2), (3, 3)]);
    t.apply_command(&mut pending, TrackCommand::Rec, true, 2, 12);
    assert_eq!(t.state(), TrackState::Playing);
    assert_eq!(t.length_frames(), 24);
    assert_eq!(t.cursor(), 0);
    assert_eq!(pending, None);
}

#[test]
fn fixed_bars_are_capped_by_the_capacity() {
    let mut t: LoopTrack<i32> = LoopTrack::new(10, 0);
    let mut pending = None;
    t.apply_command(&mut pending, TrackCommand::Rec, true, 4, 12);
    t.apply_command(&mut pending, TrackCommand::Rec, true, 4, 12);
    assert_eq!(t.length_frames(), 10);
    let mut u: LoopTrack<i32> = LoopTrack::new(10, 0);
    u.apply_command(&mut pending, TrackCommand::Rec, true, u32::MAX, usize::MAX);
    u.apply_command(&mut pending, TrackCommand::Rec, true, u32::MAX, usize::MAX);
    assert_eq!(u.length_frames(), 10);
}

#[test]
fn quantised_stop_waits_for_the_bar_boundary() {
    let mut t: LoopTrack<i32> = LoopTrack::new(64, 0);
    let mut pending = None;
    t.apply_command(&mut pending, TrackCommand::Rec, true, 0, 4);
    record(&mut t, &mut pending, &[(1, 1), (2, 2), (3, 3), (4, 4), (5, 5)]);
    t.apply_command(&mut pending, TrackCommand::Rec, true, 0, 4);
    assert_eq!(pending, Some(4));
    assert_eq!(t.state(), TrackState::Recording);
    record(&mut t, &mut pending, &[(6, 6), (7, 7)]);
    assert_eq!(t.state(), TrackState::Recording);
    record(&mut t, &mut pending, &[(8, 8)]);
    assert_eq!(t.state(), TrackState::Playing);
    assert_eq!(t.length_frames(), 8);
    assert_eq!(t.cursor(), 0);
    assert_eq!(t.layer_count(), 1);
    assert_eq!(pending, None);
    assert_eq!(t.layer_sample(0, 7, 1), Some(8));
}

#[test]
fn recording_stops_growing_at_capacity() {
    let mut t: LoopTrack<i32> = LoopTrack::new(3, 0);
    let mut pending = None;
    press(&mut t, &mut pending, TrackCommand::Rec);
    record(&mut t, &mut pending, &[(1, 1), (2, 2), (3, 3), (4, 4), (5, 5)]);
    assert_eq!(t.cursor(), 3);
    assert_eq!(t.length_frames(), 3);
    assert_eq!(t.layer_sample(0, 2, 0), Some(3));
}

#[test]
fn playback_wraps_round_the_loop() {
    let mut t: LoopTrack<i32> = LoopTrack::new(8, 0);
    let mut pending = None;
    press(&mut t, &mut pending, TrackCommand::Rec);
    record(&mut t, &mut pending, &[(1, 1), (2, 2), (3, 3)]);
    press(&mut t, &mut pending, TrackCommand::Rec);
    let frames: Vec<Option<usize>> = (0..7).map(|_| t.play_frame(false)).collect();
    assert_eq!(frames, vec![Some(0), Some(1), Some(2), Some(0), Some(1), Some(2), Some(0)]);
    assert_eq!(t.cursor(), 1);
}

#[test]
fn muted_track_holds_its_place() {
    let mut t: LoopTrack<i32> = LoopTrack::new(8, 0);
    let mut pending = None;
    press(&mut t, &mut pending, TrackCommand::Rec);
    record(&mut t, &mut pending, &[(1, 1), (2, 2)]);
    press(&mut t, &mut pending, TrackCommand::Rec);
    assert_eq!(t.play_frame(false), Some(0));
    assert_eq!(t.play_frame(true), None);
    assert_eq!(t.cursor(), 1);
}

#[test]
fn stop_then_play_restarts_from_the_top() {
    let mut t: LoopTrack<i32> = LoopTrack::new(8, 0);
    let mut pending = None;
    press(&mut t, &mut pending, TrackCommand::Rec);
    record(&mut t, &mut pending, &[(1, 1), (2, 2), (3, 3), (4, 4)]);
    press(&mut t, &mut pending, TrackCommand::Rec);
    t.play_frame(false);
    t.play_frame(false);
    press(&mut t, &mut pending, TrackCommand::PlayStop);
    assert_eq!(t.state(), TrackState::Stopped);
    assert_eq!(t.play_frame(false), None);
    press(&mut t, &mut pending, TrackCommand::PlayStop);
    assert_eq!(t.state(), TrackState::Playing);
    assert_eq!(t.cursor(), 0);
    assert_eq!(t.length_frames(), 4);
}

#[test]
fn rec_while_stopped_starts_over() {
    let mut t: LoopTrack<i32> = LoopTrack::new(8, 0);
    let mut pending = None;
    press(&mut t, &mut pending, TrackCommand::Rec);
    record(&mut t, &mut pending, &[(9, 9), (9, 9)]);
    press(&mut t, &mut pending, TrackCommand::Rec);
    press(&mut t, &mut pending, TrackCommand::PlayStop);
    press(&mut t, &mut pending, TrackCommand::Rec);
    assert_eq!(t.state(), TrackState::Recording);
    assert_eq!(t.layer_count(), 0);
    assert_eq!(t.length_frames(), 0);
    assert_eq!(t.layer_sample(0, 0, 0), Some(0));
}

#[test]
fn overdub_pass_adds_a_layer() {
    let mut t: LoopTrack<i32> = LoopTrack::new(8, 0);
    let mut pending = None;
    press(&mut t, &mut pending, TrackCommand::Rec);
    record(&mut t, &mut pending, &[(1, 1), (2, 2)]);
    press(&mut t, &mut pending, TrackCommand::Rec);
    press(&mut t, &mut pending, TrackCommand::Overdub);
    assert_eq!(t.state(), TrackState::Overdubbing);
    assert!(t.overdub_active());
    assert_eq!(t.recording_layer(), Some(1));
    assert_eq!(t.overdub_frame(), Some((0, 1)));
    t.commit_overdub_frame(10, 20);
    assert_eq!(t.overdub_frame(), Some((1, 1)));
    t.commit_overdub_frame(30, 40);
    assert_eq!(t.cursor(), 0);
    press(&mut t, &mut pending, TrackCommand::Overdub);
    assert_eq!(t.state(), TrackState::Playing);
    assert_eq!(t.layer_count(), 2);
    assert!(!t.overdub_active());
    assert_eq!(t.layer_sample(1, 0, 0), Some(10));
    assert_eq!(t.layer_sample(1, 1, 1), Some(40));
    assert_eq!(t.layer_sample(0, 1, 0), Some(2));
}

#[test]
fn full_layer_stack_refuses_another_overdub() {
    let mut t: LoopTrack<i32> = LoopTrack::new(4, 0);
    let mut pending = None;
    press(&mut t, &mut pending, TrackCommand::Rec);
    record(&mut t, &mut pending, &[(1, 1)]);
    press(&mut t, &mut pending, TrackCommand::Rec);
    for _ in 1..MAX_LAYERS {
        press(&mut t, &mut pending, TrackCommand::Overdub);
        press(&mut t, &mut pending, TrackCommand::Overdub);
    }
    assert_eq!(t.layer_count(), MAX_LAYERS);
    assert!(!t.begin_overdub());
    assert_eq!(t.state(), TrackState::Playing);
    press(&mut t, &mut pending, TrackCommand::Overdub);
    assert_eq!(t.state(), TrackState::Playing);
    assert_eq!(t.layer_count(), MAX_LAYERS);
}

#[test]
fn undo_cancels_an_overdub_in_progress() {
    let mut t: LoopTrack<i32> = LoopTrack::new(4, 0);
    let mut pending = None;
    press(&mut t, &mut pending, TrackCommand::Rec);
    record(&mut t, &mut pending, &[(1, 1), (2, 2)]);
    press(&mut t, &mut pending, TrackCommand::Rec);
    press(&mut t, &mut pending, TrackCommand::Overdub);
    t.commit_overdub_frame(7, 7);
    press(&mut t, &mut pending, TrackCommand::Undo);
    assert_eq!(t.state(), TrackState::Playing);
    assert_eq!(t.layer_count(), 1);
    assert!(!t.overdub_active());
    assert_eq!(t.layer_sample(1, 0, 0), Some(0));
    assert_eq!(t.layer_sample(0, 0, 0), Some(1));
}

#[test]
fn undo_pops_layers_down_to_empty() {
    let mut t: LoopTrack<i32> = LoopTrack::new(4, 0);
    let mut pending = None;
    press(&mut t, &mut pending, TrackCommand::Rec);
    record(&mut t, &mut pending, &[(1, 1), (2, 2)]);
    press(&mut t, &mut pending, TrackCommand::Rec);
    press(&mut t, &mut pending, TrackCommand::Overdub);
    t.commit_overdub_frame(5, 5);
    press(&mut t, &mut pending, TrackCommand::Overdub);
    assert_eq!(t.layer_count(), 2);
    press(&mut t, &mut pending, TrackCommand::Undo);
    assert_eq!(t.layer_count(), 1);
    assert_eq!(t.state(), TrackState::Playing);
    assert_eq!(t.layer_sample(1, 0, 0), Some(0));
    press(&mut t, &mut pending, TrackCommand::Undo);
    assert_eq!(t.layer_count(), 0);
    assert_eq!(t.state(), TrackState::Empty);
    assert_eq!(t.length_frames(), 0);
    assert_eq!(t.cursor(), 0);
    assert_eq!(t.layer_sample(0, 0, 0), Some(0));
}

#[test]
fn clear_empties_every_layer() {
    let mut t: LoopTrack<i32> = LoopTrack::new(4, 0);
    let mut pending = None;
    press(&mut t, &mut pending, TrackCommand::Rec);
    record(&mut t, &mut pending, &[(1, 2), (3, 4)]);
    press(&mut t, &mut pending, TrackCommand::Rec);
    press(&mut t, &mut pending, TrackCommand::Overdub);
    t.commit_overdub_frame(5, 6);
    press(&mut t, &mut pending, TrackCommand::Clear);
    assert_eq!(t.state(), TrackState::Empty);
    assert_eq!(t.layer_count(), 0);
    assert_eq!(t.length_frames(), 0);
    assert!(!t.overdub_active());
    for layer in 0..MAX_LAYERS {
        for frame in 0..4 {
            assert_eq!(t.layer_sample(layer, frame, 0), Some(0));
            assert_eq!(t.layer_sample(layer, frame, 1), Some(0));
        }
    }
}

#[test]
fn commands_out_of_their_states_change_nothing() {
    let mut t: LoopTrack<i32> = LoopTrack::new(4, 0);
    let mut pending = None;
    press(&mut t, &mut pending, TrackCommand::Overdub);
    assert_eq!(t.state(), TrackState::Empty);
    press(&mut t, &mut pending, TrackCommand::Idle);
    assert_eq!(t.state(), TrackState::Empty);
    press(&mut t, &mut pending, TrackCommand::Rec);
    press(&mut t, &mut pending, TrackCommand::Rec);
    press(&mut t, &mut pending, TrackCommand::Rec);
    assert_eq!(t.state(), TrackState::Playing);
    assert_eq!(t.layer_count(), 1);
}

#[test]
fn stop_reaches_every_state() {
    let mut t: LoopTrack<i32> = LoopTrack::new(4, 0);
    let mut pending = None;
    press(&mut t, &mut pending, TrackCommand::PlayStop);
    assert_eq!(t.state(), TrackState::Stopped);
    assert_eq!(t.length_frames(), 0);
    assert_eq!(t.layer_count(), 0);
    press(&mut t, &mut pending, TrackCommand::Rec);
    assert_eq!(t.state(), TrackState::Recording);
    record(&mut t, &mut pending, &[(1, 1), (2, 2), (3, 3)]);
    press(&mut t, &mut pending, TrackCommand::PlayStop);
    assert_eq!(t.state(), TrackState::Stopped);
    assert_eq!(t.cursor(), 3);
    assert_eq!(t.length_frames(), 3);
    assert_eq!(t.layer_count(), 0);
    assert_eq!(t.layer_sample(0, 2, 0), Some(3));
    record(&mut t, &mut pending, &[(9, 9)]);
    assert_eq!(t.cursor(), 3);
    press(&mut t, &mut pending, TrackCommand::PlayStop);
    assert_eq!(t.state(), TrackState::Playing);
    assert_eq!(t.cursor(), 0);
    press(&mut t, &mut pending, TrackCommand::Overdub);
    press(&mut t, &mut pending, TrackCommand::PlayStop);
    assert_eq!(t.state(), TrackState::Stopped);
    assert!(t.overdub_active());
}

#[test]
fn zero_capacity_track() {
    let mut t: LoopTrack<i32> = LoopTrack::new(0, 0);
    let mut pending = None;
    assert_eq!(t.capacity(), 0);
    assert_eq!(t.state(), TrackState::Empty);
    assert_eq!(t.layer_sample(0, 0, 0), None);
    press(&mut t, &mut pending, TrackCommand::Rec);
    record(&mut t, &mut pending, &[(1, 1)]);
    assert_eq!(t.cursor(), 0);
    press(&mut t, &mut pending, TrackCommand::Rec);
    assert_eq!(t.state(), TrackState::Playing);
    assert_eq!(t.length_frames(), 1);
    // The loop position is frame 0, which no layer holds.
    assert_eq!(t.play_frame(false), Some(0));
    assert_eq!(t.layer_sample(0, 0, 0), None);
    let mut u: LoopTrack<i32> = LoopTrack::new(0, 0);
    u.apply_command(&mut pending, TrackCommand::Rec, true, 2, 100);
    u.apply_command(&mut pending, TrackCommand::Rec, true, 2, 100);
    assert_eq!(u.length_frames(), 0);
    assert_eq!(u.play_frame(false), None);
}

#[test]
fn set_state_changes_only_the_state() {
    let mut t: LoopTrack<i32> = LoopTrack::new(4, 0);
    t.set_state(TrackState::Stopped);
    assert_eq!(t.state(), TrackState::Stopped);
    assert_eq!(t.length_frames(), 0);
}

#[test]
fn parameter_layout() {
    assert_eq!(PARAM_COUNT, GLOBAL_PARAM_COUNT + 3 * TRACK_COUNT);
    assert_eq!(track_level_idx(0), 4);
    assert_eq!(track_fb_idx(0), 5);
    assert_eq!(track_mute_idx(0), 6);
    assert_eq!(track_level_idx(3), 13);
    assert_eq!(track_fb_idx(3), 14);
    assert_eq!(track_mute_idx(3), 15);
    assert_eq!(pidx(2, 1), 11);
    assert_eq!(NO_LAYER, u32::MAX);
}

#[test]
fn parameter_displays() {
    assert_eq!(param_display(0), ParamDisplay::Sync);
    assert_eq!(param_display(1), ParamDisplay::Bars);
    assert_eq!(param_display(2), ParamDisplay::Plain);
    assert_eq!(param_display(3), ParamDisplay::Plain);
    assert_eq!(param_display(4), ParamDisplay::Plain);
    assert_eq!(param_display(6), ParamDisplay::Mute);
    assert_eq!(param_display(9), ParamDisplay::Mute);
    assert_eq!(param_display(15), ParamDisplay::Mute);
    assert_eq!(param_display(14), ParamDisplay::Plain);
}

#[test]
fn midi_cc_blocks_map_to_tracks() {
    assert_eq!(midi_cc_to_command(20), Some((0, TrackCommand::Rec)));
    assert_eq!(midi_cc_to_command(23), Some((3, TrackCommand::Rec)));
    assert_eq!(midi_cc_to_command(25), Some((1, TrackCommand::PlayStop)));
    assert_eq!(midi_cc_to_command(30), Some((2, TrackCommand::Overdub)));
    assert_eq!(midi_cc_to_command(35), Some((3, TrackCommand::Undo)));
    assert_eq!(midi_cc_to_command(60), Some((0, TrackCommand::Clear)));
    assert_eq!(midi_cc_to_command(63), Some((3, TrackCommand::Clear)));
    assert_eq!(midi_cc_to_command(19), None);
    assert_eq!(midi_cc_to_command(36), None);
    assert_eq!(midi_cc_to_command(59), None);
    assert_eq!(midi_cc_to_command(64), None);
}

#[test]
fn only_cc_presses_trigger_commands() {
    assert_eq!(midi_track_command([0xb0, 21, 127]), Some((1, TrackCommand::Rec)));
    assert_eq!(midi_track_command([0xb5, 28, 64]), Some((0, TrackCommand::Overdub)));
    assert_eq!(midi_track_command([0xb0, 21, 63]), None);
    assert_eq!(midi_track_command([0x90, 21, 127]), None);
    assert_eq!(midi_track_command([0xb0, 70, 127]), None);
}

#[test]
fn strip_labels() {
    assert_eq!(state_label(TrackState::Empty), "Empty");
    assert_eq!(state_label(TrackState::Recording), "REC");
    assert_eq!(state_label(TrackState::Playing), "Play");
    assert_eq!(state_label(TrackState::Overdubbing), "OVERDUB");
    assert_eq!(state_label(TrackState::Stopped), "Stop");
    assert_eq!(play_stop_label(TrackState::Playing), "Stop");
    assert_eq!(play_stop_label(TrackState::Overdubbing), "Stop");
    assert_eq!(play_stop_label(TrackState::Stopped), "Play");
    assert_eq!(play_stop_label(TrackState::Empty), "Play");
}

#[test]
fn bars_parameter_text() {
    assert_eq!(bars_text(0), "Auto");
    assert_eq!(bars_text(1), "1 bars");
    assert_eq!(bars_text(16), "16 bars");
}

#[test]
fn posted_command_runs_before_the_queued_one() {
    let mut t: LoopTrack<i32> = LoopTrack::new(8, 0);
    let mut pending = None;
    t.submit(TrackCommand::Rec);
    t.drain_commands(&mut pending, TrackCommand::Rec.to_u32(), false, 0, 0);
    // The posted Rec starts recording, the queued Rec then locks the loop.
    assert_eq!(t.state(), TrackState::Playing);
    assert_eq!(t.length_frames(), 1);
    assert_eq!(t.take_command(), TrackCommand::Idle);
    t.drain_commands(&mut pending, 0, false, 0, 0);
    assert_eq!(t.state(), TrackState::Playing);
    t.drain_commands(&mut pending, TrackCommand::Clear.to_u32(), false, 0, 0);
    assert_eq!(t.state(), TrackState::Empty);
    t.submit(TrackCommand::Rec);
    t.drain_commands(&mut pending, 77, false, 0, 0);
    assert_eq!(t.state(), TrackState::Recording);
}

#[test]
fn undo_takes_back_a_whole_overdub_pass() {
    let mut t: LoopTrack<i32> = LoopTrack::new(4, 0);
    let mut pending = None;
    press(&mut t, &mut pending, TrackCommand::Rec);
    record(&mut t, &mut pending, &[(1, 2), (3, 4), (5, 6)]);
    press(&mut t, &mut pending, TrackCommand::Rec);
    press(&mut t, &mut pending, TrackCommand::Overdub);
    press(&mut t, &mut pending, TrackCommand::Overdub);
    assert_eq!(t.layer_count(), 2);
    press(&mut t, &mut pending, TrackCommand::Undo);
    assert_eq!(t.state(), TrackState::Playing);
    assert_eq!(t.layer_count(), 1);
    assert_eq!(t.length_frames(), 3);
    assert_eq!(t.cursor(), 0);
    assert_eq!(t.layer_sample(0, 2, 1), Some(6));
    assert_eq!(t.layer_sample(1, 0, 0), Some(0));
}
