use ajazz_sdk::info::Kind;
use ajazz_sdk::protocol::{
    brightness_report, clear_report, command_report, image_announce_report, logo_announce_report,
    write_image_data_reports, WriteImageParameters,
};

const PREAMBLE: [u8; 6] = [0x00, 0x43, 0x52, 0x54, 0x00, 0x00];

#[test]
fn command_report_layout() {
    let r = command_report(&Kind::Akp153, &[0x48, 0x41, 0x4e]);
    assert_eq!(r.len(), 513);
    assert_eq!(&r[..6], &PREAMBLE);
    assert_eq!(&r[6..9], b"HAN");
    assert!(r[9..].iter().all(|b| *b == 0));
    assert_eq!(command_report(&Kind::Akp03, &[1]).len(), 1025);
}

#[test]
fn brightness_is_clamped() {
    let r = brightness_report(&Kind::Akp153, 150);
    assert_eq!(&r[6..12], &[0x4c, 0x49, 0x47, 0, 0, 100]);
    let r = brightness_report(&Kind::Akp153, 0);
    assert_eq!(r[11], 0);
    let r = brightness_report(&Kind::Akp153, 55);
    assert_eq!(r[11], 55);
}

#[test]
fn image_announcement() {
    let r = image_announce_report(&Kind::Akp153, 0, 0x1234);
    assert_eq!(&r[6..14], &[0x42, 0x41, 0x54, 0, 0, 0x12, 0x34, 13]);
    let r = image_announce_report(&Kind::Akp03, 2, 10);
    assert_eq!(r[13], 3);
    let r = image_announce_report(&Kind::Akp815, 0, 10);
    assert_eq!(r[13], 15);
}

#[test]
fn clear_reports() {
    assert_eq!(clear_report(&Kind::Akp153, 0xff)[12], 0xff);
    assert_eq!(clear_report(&Kind::Akp153, 0)[12], 13);
    assert_eq!(&clear_report(&Kind::Akp03, 1)[6..13], &[0x43, 0x4c, 0x45, 0, 0, 0, 2]);
}

#[test]
fn logo_announcement_carries_size() {
    let r = logo_announce_report(&Kind::Akp153, 854 * 480 * 3);
    assert_eq!(&r[6..14], &[0x4c, 0x4f, 0x47, 0x00, 0x12, 0xc3, 0xc0, 0x01]);
}

#[test]
fn parameters_per_generation() {
    let p = WriteImageParameters::for_key(Kind::Akp153, 10);
    assert_eq!(p.image_report_length, 513);
    assert_eq!(p.image_report_payload_length, 512);
    let p = WriteImageParameters::for_key(Kind::Akp03, 10);
    assert_eq!(p.image_report_length, 1025);
    assert_eq!(p.image_report_payload_length, 1024);
}

fn rejoin(reports: &[Vec<u8>], header: usize, payload: usize, total: usize) -> Vec<u8> {
    let mut out = Vec::new();
    for r in reports {
        let take = payload.min(total - out.len());
        out.extend_from_slice(&r[header..header + take]);
    }
    out
}

#[test]
fn chunking_splits_and_pads() {
    let p = WriteImageParameters::for_key(Kind::Akp153, 1000);
    let data: Vec<u8> = (0..1000u32).map(|i| (i % 251) as u8 + 1).collect();
    let reports = write_image_data_reports(&data, p, |_, _, _| vec![0x00]);
    assert_eq!(reports.len(), 2);
    for r in &reports {
        assert_eq!(r.len(), 513);
        assert_eq!(r[0], 0);
    }
    assert!(reports[1][1 + 488..].iter().all(|b| *b == 0));
    assert_eq!(rejoin(&reports, 1, 512, 1000), data);
}

#[test]
fn chunking_exact_multiple_keeps_last_bytes() {
    let p = WriteImageParameters::for_key(Kind::Akp03, 2048);
    let data: Vec<u8> = (0..2048u32).map(|i| (i % 7) as u8 + 1).collect();
    let reports = write_image_data_reports(&data, p, |_, _, _| vec![0x00]);
    assert_eq!(reports.len(), 2);
    assert_eq!(reports[1][1024], data[2047]);
    assert_eq!(rejoin(&reports, 1, 1024, 2048), data);
}

#[test]
fn chunking_empty_payload_gives_no_pages() {
    let p = WriteImageParameters::for_key(Kind::Akp153, 0);
    assert!(write_image_data_reports(&[], p, |_, _, _| vec![0x00]).is_empty());
}

#[test]
fn chunking_one_byte() {
    let p = WriteImageParameters::for_key(Kind::Akp153, 1);
    let reports = write_image_data_reports(&[7], p, |_, _, _| vec![0x00]);
    assert_eq!(reports.len(), 1);
    assert_eq!(reports[0][1], 7);
    assert!(reports[0][2..].iter().all(|b| *b == 0));
}

#[test]
fn chunking_asks_header_per_page() {
    let p = WriteImageParameters {
        image_report_length: 8,
        image_report_payload_length: 4,
    };
    let data: Vec<u8> = (1..=10).collect();
    let reports = write_image_data_reports(&data, p, |page, len, last| {
        vec![page as u8, len as u8, last as u8]
    });
    assert_eq!(reports.len(), 3);
    assert_eq!(reports[0], vec![0, 4, 0, 1, 2, 3, 4, 0]);
    assert_eq!(reports[1], vec![1, 4, 0, 5, 6, 7, 8, 0]);
    assert_eq!(reports[2], vec![2, 2, 1, 9, 10, 0, 0, 0]);
}
