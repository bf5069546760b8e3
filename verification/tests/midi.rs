use superduper::midi::{
    decode_channel_message, formant_cc_route, granular_cc_route, pad_cc_route, switch_is_on, ChannelEvent, CcRoute,
    FORMANT_P_DEPTH, FORMANT_P_DRIVE, FORMANT_P_F1, FORMANT_P_F2, FORMANT_P_WIDTH, GRANULAR_P_DENSITY,
    GRANULAR_P_FEEDBACK, GRANULAR_P_FREEZE, GRANULAR_P_JITTER, GRANULAR_P_POSITION, GRANULAR_P_SIZE, PAD_P_CUTOFF,
    PAD_P_DRIVE, PAD_P_MODULATION, PAD_P_RESONANCE,
};

#[test]
fn note_messages() {
    assert_eq!(decode_channel_message([0x90, 60, 100]), ChannelEvent::NoteOn { key: 60, velocity: 100 });
    assert_eq!(decode_channel_message([0x93, 61, 1]), ChannelEvent::NoteOn { key: 61, velocity: 1 });
    assert_eq!(decode_channel_message([0x90, 60, 0]), ChannelEvent::NoteOff { key: 60 });
    assert_eq!(decode_channel_message([0x8f, 62, 64]), ChannelEvent::NoteOff { key: 62 });
}

#[test]
fn pitch_bend_is_centred_on_8192() {
    assert_eq!(decode_channel_message([0xe0, 0x00, 0x40]), ChannelEvent::PitchBend { offset: 0 });
    assert_eq!(decode_channel_message([0xe0, 0x00, 0x00]), ChannelEvent::PitchBend { offset: -8192 });
    assert_eq!(decode_channel_message([0xe0, 0x7f, 0x7f]), ChannelEvent::PitchBend { offset: 8191 });
    assert_eq!(decode_channel_message([0xe2, 0x01, 0x40]), ChannelEvent::PitchBend { offset: 1 });
}

#[test]
fn controller_messages() {
    assert_eq!(decode_channel_message([0xb0, 123, 0]), ChannelEvent::AllNotesOff);
    assert_eq!(decode_channel_message([0xb4, 120, 0]), ChannelEvent::AllSoundOff);
    assert_eq!(decode_channel_message([0xb0, 1, 99]), ChannelEvent::Control { cc: 1, value: 99 });
    assert_eq!(decode_channel_message([0xc0, 5, 0]), ChannelEvent::Other);
    assert_eq!(decode_channel_message([0xf8, 0, 0]), ChannelEvent::Other);
}

#[test]
fn pad_controller_map() {
    assert_eq!(pad_cc_route(1), Some(CcRoute::Linear(PAD_P_MODULATION)));
    assert_eq!(pad_cc_route(11), Some(CcRoute::Linear(PAD_P_DRIVE)));
    assert_eq!(pad_cc_route(71), Some(CcRoute::Linear(PAD_P_RESONANCE)));
    assert_eq!(pad_cc_route(74), Some(CcRoute::Logarithmic(PAD_P_CUTOFF)));
    assert_eq!(pad_cc_route(7), None);
    assert_eq!(pad_cc_route(64), None);
}

#[test]
fn formant_controller_map() {
    assert_eq!(formant_cc_route([0xb0, 1, 10]), Some(CcRoute::Linear(FORMANT_P_F1)));
    assert_eq!(formant_cc_route([0xb1, 74, 10]), Some(CcRoute::Linear(FORMANT_P_F2)));
    assert_eq!(formant_cc_route([0xb0, 71, 10]), Some(CcRoute::Linear(FORMANT_P_WIDTH)));
    assert_eq!(formant_cc_route([0xb0, 73, 10]), Some(CcRoute::Linear(FORMANT_P_DRIVE)));
    assert_eq!(formant_cc_route([0xb0, 76, 10]), Some(CcRoute::Linear(FORMANT_P_DEPTH)));
    assert_eq!(formant_cc_route([0xb0, 2, 10]), None);
    assert_eq!(formant_cc_route([0x90, 1, 10]), None);
}

#[test]
fn granular_controller_map() {
    assert_eq!(granular_cc_route([0xb0, 64, 127]), Some(CcRoute::Switch(GRANULAR_P_FREEZE)));
    assert_eq!(granular_cc_route([0xb0, 74, 0]), Some(CcRoute::Linear(GRANULAR_P_DENSITY)));
    assert_eq!(granular_cc_route([0xb0, 71, 0]), Some(CcRoute::Linear(GRANULAR_P_SIZE)));
    assert_eq!(granular_cc_route([0xb0, 73, 0]), Some(CcRoute::Linear(GRANULAR_P_FEEDBACK)));
    assert_eq!(granular_cc_route([0xb0, 76, 0]), Some(CcRoute::Linear(GRANULAR_P_JITTER)));
    assert_eq!(granular_cc_route([0xb0, 1, 0]), Some(CcRoute::Linear(GRANULAR_P_POSITION)));
    assert_eq!(granular_cc_route([0xb0, 11, 0]), None);
    assert_eq!(granular_cc_route([0xe0, 64, 0]), None);
}

#[test]
fn switch_threshold() {
    assert!(!switch_is_on(0));
    assert!(!switch_is_on(63));
    assert!(switch_is_on(64));
    assert!(switch_is_on(127));
}
