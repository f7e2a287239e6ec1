use ajazz_sdk::discovery::{select_devices, DeviceCandidate};
use ajazz_sdk::info::{Kind, PID_AJAZZ_AKP03, PID_AJAZZ_AKP153, VENDOR_ID_MIRABOX_V1, VENDOR_ID_MIRABOX_V2};
use ajazz_sdk::input::{AjazzInput, DeviceStateUpdate};
use ajazz_sdk::reader::DeviceState;

#[test]
fn held_button_is_reported_up() {
    let mut state = DeviceState { buttons: vec![false, true], encoders: vec![] };
    let events = state.update(AjazzInput::ButtonStateChange(vec![true, true]));
    assert_eq!(events, vec![DeviceStateUpdate::ButtonDown(0), DeviceStateUpdate::ButtonUp(1)]);
    assert_eq!(state.buttons, vec![true, true]);
}

#[test]
fn released_button_gives_no_event() {
    let mut state = DeviceState::new(&Kind::Akp815);
    assert_eq!(state.buttons.len(), 15);
    let mut press = vec![false; 15];
    press[3] = true;
    assert_eq!(state.update(AjazzInput::ButtonStateChange(press)), vec![DeviceStateUpdate::ButtonDown(3)]);
    assert!(state.update(AjazzInput::ButtonStateChange(vec![false; 15])).is_empty());
}

#[test]
fn encoder_press_is_momentary() {
    let mut state = DeviceState::new(&Kind::Akp03);
    let events = state.update(AjazzInput::EncoderStateChange(vec![false, true, false]));
    assert_eq!(events, vec![DeviceStateUpdate::EncoderDown(1), DeviceStateUpdate::EncoderUp(1)]);
    assert_eq!(state.encoders, vec![false, true, false]);
}

#[test]
fn twists_leave_state_alone() {
    let mut state = DeviceState::new(&Kind::Akp03);
    let events = state.update(AjazzInput::EncoderTwist(vec![0, -1, 3]));
    assert_eq!(
        events,
        vec![DeviceStateUpdate::EncoderTwist(1, -1), DeviceStateUpdate::EncoderTwist(2, 3)]
    );
    assert_eq!(state.encoders, vec![false, false, false]);
    assert!(state.update(AjazzInput::NoData).is_empty());
}

fn candidate(vid: u16, pid: u16, serial: Option<&str>) -> DeviceCandidate {
    DeviceCandidate { vendor_id: vid, product_id: pid, serial_number: serial.map(|s| s.to_string()) }
}

#[test]
fn discovery_skips_unknown_devices() {
    let list = vec![
        candidate(0x046d, 0xc52b, Some("mouse")),
        candidate(VENDOR_ID_MIRABOX_V1, 0x9999, Some("odd")),
        candidate(VENDOR_ID_MIRABOX_V1, PID_AJAZZ_AKP153, None),
        candidate(VENDOR_ID_MIRABOX_V1, PID_AJAZZ_AKP153, Some("A1")),
        candidate(VENDOR_ID_MIRABOX_V2, PID_AJAZZ_AKP03, Some("B2")),
        candidate(VENDOR_ID_MIRABOX_V1, PID_AJAZZ_AKP153, Some("A1")),
    ];
    let found = select_devices(&list);
    assert_eq!(found, vec![(Kind::Akp153, "A1".to_string()), (Kind::Akp03, "B2".to_string())]);
    assert!(select_devices(&vec![]).is_empty());
}
