use ajazz_sdk::error::AjazzError;
use ajazz_sdk::info::Kind;
use ajazz_sdk::session::Session;

fn is_image_announce(r: &[u8]) -> bool {
    &r[6..9] == b"BAT"
}

fn tag(r: &[u8]) -> &[u8] {
    &r[6..9]
}

#[test]
fn setup_is_sent_once() {
    let mut s = Session::new(Kind::Akp153);
    let first = s.sleep();
    assert_eq!(first.len(), 3);
    assert_eq!(tag(&first[0]), b"DIS");
    assert_eq!(tag(&first[1]), b"LIG");
    assert_eq!(tag(&first[2]), b"HAN");
    let second = s.sleep();
    assert_eq!(second.len(), 1);
    assert!(s.initialize().is_empty());
}

#[test]
fn brightness_out_of_range_is_clamped() {
    let mut s = Session::new(Kind::Akp815);
    s.initialize();
    let r = s.set_brightness(150);
    assert_eq!(r.len(), 1);
    assert_eq!(r[0][11], 100);
    let r = s.set_brightness(0);
    assert_eq!(r[0][11], 0);
}

#[test]
fn flushing_empty_cache_sends_no_image() {
    let mut s = Session::new(Kind::Akp153);
    s.initialize();
    let r = s.flush();
    assert!(r.is_empty());
    assert!(!r.iter().any(|x| is_image_announce(x)));
}

#[test]
fn restaging_a_key_sends_one_image() {
    let mut s = Session::new(Kind::Akp153);
    s.initialize();
    s.write_image(3, &[1, 1, 1]).unwrap();
    s.write_image(3, &[2, 2, 2, 2]).unwrap();
    let r = s.flush();
    let announces: Vec<&Vec<u8>> = r.iter().filter(|x| is_image_announce(x)).collect();
    assert_eq!(announces.len(), 1);
    assert_eq!(announces[0][12], 4);
    assert_eq!(r.len(), 3);
    assert_eq!(&r[1][1..5], &[2, 2, 2, 2]);
    assert_eq!(tag(&r[2]), b"STP");
    s.finish_flush();
    assert!(s.flush().is_empty());
}

#[test]
fn flush_keeps_cache_until_finished() {
    let mut s = Session::new(Kind::Akp03);
    s.write_image(0, &[5]).unwrap();
    s.write_image(1, &[6]).unwrap();
    let r = s.flush();
    assert_eq!(r.len(), 2 + 2 + 2 + 1);
    let again = s.flush();
    assert_eq!(again.len(), 2 + 2 + 1);
}

#[test]
fn staging_rules() {
    let mut s = Session::new(Kind::Akp03);
    assert!(s.write_image(7, &[1]).is_ok());
    assert!(matches!(s.write_image(200, &[1]), Ok(())));
    s.initialize();
    assert!(s.flush().is_empty());
    let mut s = Session::new(Kind::Akp815);
    assert!(matches!(s.write_image(15, &[1]), Err(AjazzError::InvalidKeyIndex)));
}

#[test]
fn clear_all_commits_on_second_generation() {
    let mut s = Session::new(Kind::Akp03E);
    s.initialize();
    let r = s.clear_all_button_images();
    assert_eq!(r.len(), 2);
    assert_eq!(r[0][12], 0xff);
    assert_eq!(tag(&r[1]), b"STP");
    let mut s = Session::new(Kind::Akp153E);
    s.initialize();
    assert_eq!(s.clear_all_button_images().len(), 1);
}

#[test]
fn reset_sets_full_brightness_then_clears() {
    let mut s = Session::new(Kind::Akp153);
    s.initialize();
    let r = s.reset();
    assert_eq!(r.len(), 2);
    assert_eq!(r[0][11], 100);
    assert_eq!(tag(&r[1]), b"CLE");
}

#[test]
fn shutdown_clears_then_sleeps() {
    let mut s = Session::new(Kind::Akp153);
    s.initialize();
    let r = s.shutdown();
    assert_eq!(r.len(), 2);
    assert_eq!(&r[0][6..13], &[0x43, 0x4c, 0x45, 0, 0, 0x44, 0x43]);
    assert_eq!(tag(&r[1]), b"HAN");
    assert_eq!(&s.keep_alive()[0][6..13], b"CONNECT");
}

#[test]
fn logo_needs_a_screen() {
    let mut s = Session::new(Kind::Akp03);
    assert!(matches!(s.set_logo_image(&[1, 2, 3]), Err(AjazzError::UnsupportedOperation)));
    let mut s = Session::new(Kind::Akp153);
    s.initialize();
    let r = s.set_logo_image(&vec![9u8; 600]).unwrap();
    assert_eq!(r.len(), 3);
    assert_eq!(tag(&r[0]), b"LOG");
    assert_eq!(r[2][1 + 87], 9);
    assert_eq!(r[2][1 + 88], 0);
}

#[test]
fn session_kind() {
    assert_eq!(Session::new(Kind::Akp815).kind(), Kind::Akp815);
}

#[test]
fn clearing_a_key_beyond_the_count_is_refused() {
    let mut s = Session::new(Kind::Akp815);
    assert!(matches!(s.clear_button_image(15), Err(AjazzError::InvalidKeyIndex)));
    let r = s.clear_button_image(14).unwrap();
    assert_eq!(r.len(), 3);
    assert_eq!(r[2][12], 1);
    assert_eq!(s.clear_button_image(0xff).unwrap()[0][12], 0xff);
}

#[test]
fn refused_logo_keeps_setup_owed() {
    let mut s = Session::new(Kind::Akp03);
    assert!(s.set_logo_image(&[1, 2, 3]).is_err());
    let r = s.sleep();
    assert_eq!(r.len(), 3);
    assert_eq!(tag(&r[0]), b"DIS");
}
