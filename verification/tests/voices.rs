use superduper::voices::{
    apply_kubyz_plan, apply_pad_plan, choke_voices, count_sounding, level_key_from_bits, matches_key, matches_note_id,
    plan_kubyz_voice, plan_pad_voice, release_targets, ChokeStep, NoteMatch, VoicePlan, VoiceTag, VoiceView,
    LEVEL_KEY_INFINITY, LEVEL_KEY_NEG_INFINITY, NOTE_FREE,
};

fn idle_slot() -> VoiceView {
    VoiceView {
        key: NOTE_FREE,
        note_id: -1,
        age_stamp: 0,
        choke_remaining: 0,
        idle: true,
        releasing: false,
        level_key: level_key_from_bits(0.0f32.to_bits()),
    }
}

fn held(key: u8, note_id: i32, age: u64, level: f32) -> VoiceView {
    VoiceView {
        key,
        note_id,
        age_stamp: age,
        choke_remaining: 0,
        idle: false,
        releasing: false,
        level_key: level_key_from_bits(level.to_bits()),
    }
}

fn releasing(key: u8, age: u64, level: f32) -> VoiceView {
    VoiceView { releasing: true, ..held(key, -1, age, level) }
}

#[test]
fn level_keys_order_like_the_levels() {
    let levels = [-2.5f32, -1.0, -1e-40, 0.0, 1e-40, 1e-30, 0.25, 0.5, 1.0, 3.0, f32::INFINITY];
    for w in levels.windows(2) {
        let a = level_key_from_bits(w[0].to_bits());
        let b = level_key_from_bits(w[1].to_bits());
        assert!(a < b, "{} should sort below {}", w[0], w[1]);
    }
    assert_eq!(level_key_from_bits(f32::INFINITY.to_bits()), LEVEL_KEY_INFINITY);
    assert_eq!(level_key_from_bits(0.0f32.to_bits()), 0x8000_0000);
    assert_eq!(level_key_from_bits((-0.0f32).to_bits()), level_key_from_bits(0.0f32.to_bits()));
    assert_eq!(level_key_from_bits(1.0f32.to_bits()), 0xbf80_0000);
}

#[test]
fn note_targets() {
    assert!(matches_key(NoteMatch::All, 60));
    assert!(matches_key(NoteMatch::Specific(60), 60));
    assert!(!matches_key(NoteMatch::Specific(61), 60));
    assert!(matches_key(NoteMatch::Specific(0x13c), 60));
    assert!(matches_note_id(NoteMatch::All, 7));
    assert!(matches_note_id(NoteMatch::Specific(7), 7));
    assert!(!matches_note_id(NoteMatch::Specific(8), 7));
    assert!(matches_note_id(NoteMatch::Specific(u32::MAX), -1));
}

#[test]
fn pad_retriggers_the_same_note() {
    let s = [held(60, 3, 1, 0.5), idle_slot(), held(62, 4, 2, 0.5)];
    assert_eq!(plan_pad_voice(&s, 62, 4, 8), VoicePlan::Retrigger(2));
    assert_eq!(plan_pad_voice(&s, 62, 5, 8), VoicePlan::Start(1));
}

#[test]
fn pad_starts_in_the_first_idle_unfaded_slot() {
    let mut fading = idle_slot();
    fading.choke_remaining = 10;
    let s = [held(60, -1, 1, 0.5), fading, idle_slot(), idle_slot()];
    assert_eq!(plan_pad_voice(&s, 64, -1, 8), VoicePlan::Start(2));
}

#[test]
fn pad_polyphony_cap_forces_a_steal() {
    let s = [held(60, -1, 5, 0.5), held(62, -1, 3, 0.5), idle_slot(), idle_slot()];
    // At the cap the oldest slot goes, and a slot that never played is the oldest.
    assert_eq!(plan_pad_voice(&s, 64, -1, 2), VoicePlan::Steal(2));
    let busy = [held(60, -1, 5, 0.5), held(62, -1, 3, 0.5)];
    assert_eq!(plan_pad_voice(&busy, 64, -1, 2), VoicePlan::Steal(1));
    assert_eq!(plan_pad_voice(&s, 64, -1, 3), VoicePlan::Start(2));
}

#[test]
fn pad_steals_the_quietest_releasing_voice() {
    let s = [held(60, -1, 1, 0.9), releasing(62, 2, 0.4), releasing(64, 3, 0.1), releasing(65, 4, 0.1)];
    assert_eq!(plan_pad_voice(&s, 67, -1, 2), VoicePlan::Steal(2));
}

#[test]
fn pad_skips_voices_already_fading_when_stealing() {
    let mut fading = releasing(62, 1, 0.0);
    fading.choke_remaining = 5;
    let s = [held(60, -1, 9, 0.9), fading, held(64, -1, 4, 0.9)];
    assert_eq!(plan_pad_voice(&s, 67, -1, 2), VoicePlan::Steal(2));
}

#[test]
fn pad_falls_back_to_the_oldest_of_all_when_everything_fades() {
    let mut a = held(60, -1, 7, 0.9);
    a.choke_remaining = 3;
    let mut b = held(62, -1, 2, 0.9);
    b.choke_remaining = 3;
    let s = [a, b];
    assert_eq!(plan_pad_voice(&s, 67, -1, 2), VoicePlan::Steal(1));
}

#[test]
fn kubyz_plans() {
    let s = [held(50, -1, 4, 0.9), idle_slot()];
    assert_eq!(plan_kubyz_voice(&s, 50, -1), VoicePlan::Retrigger(0));
    assert_eq!(plan_kubyz_voice(&s, 52, -1), VoicePlan::Start(1));
    let full = [held(50, -1, 4, 0.9), held(52, -1, 2, 0.9), held(53, -1, 3, 0.9)];
    assert_eq!(plan_kubyz_voice(&full, 55, -1), VoicePlan::Steal(1));
    let rel = [held(50, -1, 4, 0.9), releasing(52, 9, 0.3), releasing(53, 8, 0.6)];
    assert_eq!(plan_kubyz_voice(&rel, 55, -1), VoicePlan::Steal(1));
}

#[test]
fn steal_fade_hands_the_slot_to_the_parked_note() {
    let mut t = VoiceTag::free_slot();
    t.start(60, 1, 10);
    t.park(64, 2, 11, 3);
    assert_eq!(t.key, 60);
    assert_eq!(t.pending_key, 64);
    assert_eq!(t.age_stamp, 11);
    assert_eq!(t.tick_choke(), ChokeStep::Fading);
    assert_eq!(t.tick_choke(), ChokeStep::Fading);
    assert_eq!(t.tick_choke(), ChokeStep::StartParked);
    assert_eq!(t.key, 64);
    assert_eq!(t.note_id, 2);
    assert_eq!(t.pending_key, NOTE_FREE);
    assert_eq!(t.choke_remaining, 0);
    assert_eq!(t.tick_choke(), ChokeStep::NotFading);
}

#[test]
fn choke_frees_the_slot() {
    let mut t = VoiceTag::free_slot();
    t.start(60, -1, 1);
    t.begin_choke(0);
    assert_eq!(t.choke_total, 1);
    assert_eq!(t.choke_remaining, 1);
    assert!(t.is_sounding(true));
    assert_eq!(t.tick_choke(), ChokeStep::Freed);
    assert_eq!(t.key, NOTE_FREE);
    assert!(!t.is_sounding(true));
    assert!(t.is_sounding(false));
}

#[test]
fn retrigger_cancels_a_fade() {
    let mut t = VoiceTag::free_slot();
    t.start(60, -1, 1);
    t.begin_choke(100);
    t.retrigger(5);
    assert_eq!(t.choke_remaining, 0);
    assert_eq!(t.age_stamp, 5);
    assert_eq!(t.key, 60);
}

#[test]
fn release_and_choke_reach() {
    let mut t = VoiceTag::free_slot();
    assert!(!t.releases_on(NoteMatch::All, NoteMatch::All));
    assert!(!t.chokes_on(NoteMatch::All, NoteMatch::All));
    t.start(60, 9, 1);
    assert!(t.releases_on(NoteMatch::Specific(60), NoteMatch::All));
    assert!(t.releases_on(NoteMatch::All, NoteMatch::Specific(9)));
    assert!(!t.releases_on(NoteMatch::Specific(61), NoteMatch::All));
    t.begin_choke(10);
    t.release_slot();
    assert_eq!(t.key, NOTE_FREE);
    assert!(!t.releases_on(NoteMatch::All, NoteMatch::All));
    assert!(t.chokes_on(NoteMatch::All, NoteMatch::All));
}

#[test]
fn tuning_targets() {
    let mut t = VoiceTag::free_slot();
    assert!(!t.tuning_applies(-1, None));
    t.start(60, 4, 1);
    assert!(t.tuning_applies(-1, None));
    assert!(t.tuning_applies(4, Some(60)));
    assert!(!t.tuning_applies(5, None));
    assert!(!t.tuning_applies(-1, Some(61)));
}

fn tag(key: u8, note_id: i32) -> VoiceTag {
    let mut t = VoiceTag::free_slot();
    if key != NOTE_FREE {
        t.start(key, note_id, 1);
    }
    t
}

#[test]
fn choke_reaches_held_and_fading_slots() {
    let mut fading = tag(NOTE_FREE, -1);
    fading.begin_choke(9);
    let mut tags = vec![tag(60, 1), tag(NOTE_FREE, -1), fading, tag(62, 2)];
    let hit = choke_voices(&mut tags, NoteMatch::All, NoteMatch::All, 240);
    assert_eq!(hit, vec![true, false, true, true]);
    assert_eq!(tags[0].choke_remaining, 240);
    assert_eq!(tags[0].choke_total, 240);
    assert_eq!(tags[1].choke_remaining, 0);
    assert_eq!(tags[2].choke_remaining, 240);
    let hit = choke_voices(&mut tags, NoteMatch::Specific(62), NoteMatch::All, 0);
    assert_eq!(hit, vec![false, false, false, true]);
    assert_eq!(tags[3].choke_remaining, 1);
}

#[test]
fn note_off_reaches_matching_held_slots() {
    let tags = vec![tag(60, 1), tag(60, 2), tag(NOTE_FREE, -1), tag(61, 1)];
    assert_eq!(release_targets(&tags, NoteMatch::Specific(60), NoteMatch::All), vec![true, true, false, false]);
    assert_eq!(release_targets(&tags, NoteMatch::All, NoteMatch::Specific(1)), vec![true, false, false, true]);
    assert_eq!(release_targets(&tags, NoteMatch::All, NoteMatch::All), vec![true, true, false, true]);
}

#[test]
fn active_voice_meter() {
    let mut fading = tag(NOTE_FREE, -1);
    fading.begin_choke(5);
    let tags = vec![tag(60, 1), tag(NOTE_FREE, -1), fading, tag(NOTE_FREE, -1)];
    assert_eq!(count_sounding(&tags, &[true, true, true, false]), 3);
    assert_eq!(count_sounding(&tags, &[true, true, true, true]), 2);
    assert_eq!(count_sounding(&[], &[]), 0);
}

#[test]
fn nan_levels_are_never_the_quietest() {
    let neg_nan = f32::from_bits(0xffc0_0000);
    let pos_nan = f32::from_bits(0x7fc0_0000);
    assert!(neg_nan.is_nan() && pos_nan.is_nan());
    assert!(level_key_from_bits(neg_nan.to_bits()) < LEVEL_KEY_NEG_INFINITY);
    assert_eq!(level_key_from_bits(f32::NEG_INFINITY.to_bits()), LEVEL_KEY_NEG_INFINITY);
    let s = [held(60, -1, 1, 0.9), releasing(62, 2, neg_nan), releasing(64, 3, 0.7), releasing(65, 4, pos_nan)];
    assert_eq!(plan_pad_voice(&s, 67, -1, 2), VoicePlan::Steal(2));
    assert_eq!(plan_kubyz_voice(&s, 67, -1), VoicePlan::Steal(2));
    let only_nan = [held(60, -1, 5, 0.9), releasing(62, 2, neg_nan)];
    assert_eq!(plan_kubyz_voice(&only_nan, 67, -1), VoicePlan::Steal(1));
    let inf = [releasing(62, 9, f32::NEG_INFINITY), releasing(63, 1, 0.0)];
    assert_eq!(plan_kubyz_voice(&inf, 67, -1), VoicePlan::Steal(0));
}

#[test]
fn pad_plans_are_carried_out_on_one_slot() {
    let mut tags = vec![tag(60, 1), tag(NOTE_FREE, -1), tag(62, 2)];
    let before = tags.clone();
    let mut age: u64 = 7;
    assert_eq!(apply_pad_plan(&mut tags, &mut age, VoicePlan::Start(1), 64, 3, 192), 8);
    assert_eq!(age, 8);
    assert_eq!((tags[1].key, tags[1].note_id, tags[1].age_stamp), (64, 3, 8));
    assert_eq!(tags[0], before[0]);
    assert_eq!(tags[2], before[2]);
    tags[2].begin_choke(50);
    assert_eq!(apply_pad_plan(&mut tags, &mut age, VoicePlan::Retrigger(2), 62, 2, 192), 9);
    assert_eq!((tags[2].age_stamp, tags[2].choke_remaining), (9, 0));
    assert_eq!(apply_pad_plan(&mut tags, &mut age, VoicePlan::Steal(0), 66, 4, 192), 10);
    assert_eq!(tags[0].key, 60);
    assert_eq!((tags[0].pending_key, tags[0].pending_note_id), (66, 4));
    assert_eq!((tags[0].choke_remaining, tags[0].choke_total, tags[0].age_stamp), (192, 192, 10));
    let mut max_age = u64::MAX;
    assert_eq!(apply_pad_plan(&mut tags, &mut max_age, VoicePlan::Steal(1), 67, 5, 0), 0);
    assert_eq!(max_age, 0);
    assert_eq!(tags[1].choke_remaining, 1);
}

#[test]
fn kubyz_steal_takes_the_slot_at_once() {
    let mut tags = vec![tag(50, -1), tag(52, -1)];
    tags[1].begin_choke(30);
    let mut age: u64 = 0;
    assert_eq!(apply_kubyz_plan(&mut tags, &mut age, VoicePlan::Steal(1), 55, -1), 1);
    assert_eq!((tags[1].key, tags[1].age_stamp, tags[1].choke_remaining), (55, 1, 0));
    assert_eq!(tags[0].key, 50);
    apply_kubyz_plan(&mut tags, &mut age, VoicePlan::Retrigger(0), 50, -1);
    assert_eq!((tags[0].key, tags[0].age_stamp), (50, 2));
}

#[test]
fn signed_zeros_tie_and_the_earlier_slot_wins() {
    let s = [releasing(60, 1, 0.0), releasing(62, 2, -0.0)];
    assert_eq!(plan_pad_voice(&s, 67, -1, 2), VoicePlan::Steal(0));
    let t = [releasing(60, 1, -0.0), releasing(62, 2, 0.0)];
    assert_eq!(plan_kubyz_voice(&t, 67, -1), VoicePlan::Steal(0));
}
