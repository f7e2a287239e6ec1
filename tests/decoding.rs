use ajazz_sdk::error::AjazzError;
use ajazz_sdk::info::Kind;
use ajazz_sdk::input::AjazzInput;
use ajazz_sdk::util::{
    ajazz03_read_input, decode_input_report, extract_str, mirabox_extend_packet,
    read_button_states, read_encoder_input, serial_or_unknown, text_or_unknown,
};

fn buttons(r: Result<AjazzInput, AjazzError>) -> Vec<bool> {
    match r {
        Ok(AjazzInput::ButtonStateChange(v)) => v,
        other => panic!("expected buttons, got {:?}", other),
    }
}

#[test]
fn extend_packet_pads_to_report_length() {
    let mut v1 = vec![1u8, 2, 3];
    mirabox_extend_packet(&Kind::Akp153, &mut v1);
    assert_eq!(v1.len(), 513);
    assert_eq!(&v1[..3], &[1, 2, 3]);
    assert!(v1[3..].iter().all(|b| *b == 0));
    let mut v2 = vec![9u8];
    mirabox_extend_packet(&Kind::Akp03, &mut v2);
    assert_eq!(v2.len(), 1025);
}

#[test]
fn button_states_read_after_first_byte() {
    let mut states = vec![0u8; 20];
    assert!(read_button_states(&Kind::Akp815, &states).is_empty());
    states[0] = 1;
    states[3] = 7;
    let b = read_button_states(&Kind::Akp815, &states);
    assert_eq!(b.len(), 15);
    assert!(b[2]);
    assert_eq!(b.iter().filter(|x| **x).count(), 1);
}

#[test]
fn encoder_input_kinds() {
    let data = [0u8, 0, 0, 0, 0, 1, 0, 5];
    match read_encoder_input(&Kind::Akp03, &data) {
        Ok(AjazzInput::EncoderStateChange(v)) => assert_eq!(v, vec![true, false, true]),
        other => panic!("{:?}", other),
    }
    let data = [0u8, 0, 0, 0, 1, 0xff, 0, 2];
    match read_encoder_input(&Kind::Akp03, &data) {
        Ok(AjazzInput::EncoderTwist(v)) => assert_eq!(v, vec![-1, 0, 2]),
        other => panic!("{:?}", other),
    }
    let data = [0u8, 0, 0, 0, 7, 0, 0, 0];
    assert!(matches!(read_encoder_input(&Kind::Akp03, &data), Err(AjazzError::BadData)));
}

#[test]
fn akp03_button_codes() {
    let b = buttons(ajazz03_read_input(&Kind::Akp03, 3, 1));
    assert_eq!(b.len(), 9);
    assert!(b[2]);
    assert_eq!(b.iter().filter(|x| **x).count(), 1);
    assert!(buttons(ajazz03_read_input(&Kind::Akp03, 0x25, 1))[6]);
    assert!(buttons(ajazz03_read_input(&Kind::Akp03, 0x30, 1))[7]);
    assert!(buttons(ajazz03_read_input(&Kind::Akp03, 0x31, 1))[8]);
    assert!(buttons(ajazz03_read_input(&Kind::Akp03, 0, 1)).iter().all(|x| !*x));
    assert!(buttons(ajazz03_read_input(&Kind::Akp03, 4, 0)).iter().all(|x| !*x));
}

#[test]
fn akp03_encoder_codes() {
    match ajazz03_read_input(&Kind::Akp03, 0x50, 1) {
        Ok(AjazzInput::EncoderTwist(v)) => assert_eq!(v, vec![0, -1, 0]),
        other => panic!("{:?}", other),
    }
    match ajazz03_read_input(&Kind::Akp03, 0x61, 1) {
        Ok(AjazzInput::EncoderTwist(v)) => assert_eq!(v, vec![0, 0, 1]),
        other => panic!("{:?}", other),
    }
    match ajazz03_read_input(&Kind::Akp03, 0x35, 1) {
        Ok(AjazzInput::EncoderStateChange(v)) => assert_eq!(v, vec![false, true, false]),
        other => panic!("{:?}", other),
    }
    match ajazz03_read_input(&Kind::Akp03, 0x34, 1) {
        Ok(AjazzInput::EncoderStateChange(v)) => assert_eq!(v, vec![false, false, true]),
        other => panic!("{:?}", other),
    }
}

#[test]
fn akp03_unknown_code_is_bad_data() {
    assert!(matches!(ajazz03_read_input(&Kind::Akp03, 0x40, 1), Err(AjazzError::BadData)));
    assert!(matches!(ajazz03_read_input(&Kind::Akp03, 7, 1), Err(AjazzError::BadData)));
    assert!(matches!(ajazz03_read_input(&Kind::Akp153, 0x90, 1), Err(AjazzError::BadData)));
}

#[test]
fn report_without_data() {
    let data = vec![0u8; 512];
    let r = decode_input_report(&Kind::Akp153, &data).unwrap();
    assert!(r.is_empty());
}

#[test]
fn first_generation_key_press_is_remapped() {
    let mut data = vec![0u8; 512];
    data[0] = 1;
    data[9] = 1;
    let b = buttons(decode_input_report(&Kind::Akp153, &data));
    assert_eq!(b.len(), 18);
    assert!(b[4]);
    assert_eq!(b.iter().filter(|x| **x).count(), 1);
    data[9] = 1;
    let b = buttons(decode_input_report(&Kind::Akp815, &data));
    assert!(b[14]);
    data[9] = 0;
    let b = buttons(decode_input_report(&Kind::Akp815, &data));
    assert!(b.iter().all(|x| !*x));
    data[9] = 16;
    assert!(matches!(decode_input_report(&Kind::Akp815, &data), Err(AjazzError::BadData)));
}

#[test]
fn second_generation_uses_command_code() {
    let mut data = vec![0u8; 512];
    data[0] = 1;
    data[9] = 0x91;
    match decode_input_report(&Kind::Akp03R, &data) {
        Ok(AjazzInput::EncoderTwist(v)) => assert_eq!(v, vec![1, 0, 0]),
        other => panic!("{:?}", other),
    }
    data[9] = 2;
    assert!(buttons(decode_input_report(&Kind::Akp03R, &data))[1]);
    data[9] = 0xee;
    assert!(matches!(decode_input_report(&Kind::Akp03R, &data), Err(AjazzError::BadData)));
}

#[test]
fn extract_str_strips_nul() {
    assert_eq!(extract_str(b"\x01V1.0.2\0\0\0").unwrap(), "\u{1}V1.0.2");
    assert_eq!(extract_str(b"ab\0c").unwrap(), "abc");
    assert_eq!(extract_str(b"").unwrap(), "");
    assert!(matches!(extract_str(&[0xff, 0xfe]), Err(AjazzError::Utf8Error(_))));
}

#[test]
fn missing_strings_read_unknown() {
    assert_eq!(text_or_unknown(None), "Unknown");
    assert_eq!(text_or_unknown(Some("Ajazz".to_string())), "Ajazz");
    assert_eq!(text_or_unknown(Some(String::new())), "");
    assert_eq!(serial_or_unknown(Some(String::new())), "Unknown");
    assert_eq!(serial_or_unknown(None), "Unknown");
    assert_eq!(serial_or_unknown(Some("355499441494".to_string())), "355499441494");
}

#[test]
fn extract_str_checks_the_bytes_as_given() {
    assert!(matches!(extract_str(&[0xc3, 0x00, 0xa9]), Err(AjazzError::Utf8Error(_))));
    assert_eq!(extract_str(&[0xc3, 0xa9, 0x00]).unwrap(), "\u{e9}");
}

#[test]
fn button_states_of_empty_report_need_one_byte() {
    assert!(read_button_states(&Kind::Akp153, &[0]).is_empty());
}
