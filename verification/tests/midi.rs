use shadecore::midi::{decode_control_change, normalize_midi_channel, normalize_midi_channel_opt};

#[test]
fn one_based_channels_are_shifted_down() {
    assert_eq!(normalize_midi_channel(1), 0);
    assert_eq!(normalize_midi_channel(16), 15);
    assert_eq!(normalize_midi_channel(0), 0);
    assert_eq!(normalize_midi_channel(255), 255);
    assert_eq!(normalize_midi_channel(17), 17);
    assert_eq!(normalize_midi_channel_opt(None), None);
    assert_eq!(normalize_midi_channel_opt(Some(10)), Some(9));
}

#[test]
fn control_change_is_decoded() {
    let m = decode_control_change(&[0xB3, 7, 127]).unwrap();
    assert_eq!((m.channel, m.controller, m.value), (3, 7, 127));
    assert!(decode_control_change(&[0x93, 7, 127]).is_none());
    assert!(decode_control_change(&[0xB3, 7]).is_none());
}
