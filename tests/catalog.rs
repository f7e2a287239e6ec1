use ajazz_sdk::info::{
    is_mirabox_vendor, ImageMirroring, ImageRotation, Kind, PID_AJAZZ_AKP03R_REV2,
    PID_AJAZZ_AKP153, VENDOR_ID_MIRABOX_V1, VENDOR_ID_MIRABOX_V2,
};
use ajazz_sdk::util::{ajazz153_to_elgato_input, elgato_to_ajazz153, inverse_key_index};

const ALL: [Kind; 8] = [
    Kind::Akp153,
    Kind::Akp153E,
    Kind::Akp153R,
    Kind::Akp815,
    Kind::Akp03,
    Kind::Akp03E,
    Kind::Akp03R,
    Kind::Akp03RRev2,
];

#[test]
fn ids_round_trip_for_every_kind() {
    for k in ALL {
        assert_eq!(Kind::from_vid_pid(k.vendor_id(), k.product_id()), Some(k));
        assert!(is_mirabox_vendor(k.vendor_id()));
    }
}

#[test]
fn unknown_ids_give_no_kind() {
    assert_eq!(Kind::from_vid_pid(0x1234, PID_AJAZZ_AKP153), None);
    assert_eq!(Kind::from_vid_pid(VENDOR_ID_MIRABOX_V1, 0x0001), None);
    assert_eq!(Kind::from_vid_pid(VENDOR_ID_MIRABOX_V2, PID_AJAZZ_AKP153), None);
    assert!(!is_mirabox_vendor(0x0fd9));
}

#[test]
fn second_revision_is_found() {
    assert_eq!(
        Kind::from_vid_pid(VENDOR_ID_MIRABOX_V2, PID_AJAZZ_AKP03R_REV2),
        Some(Kind::Akp03RRev2)
    );
}

#[test]
fn display_keys_never_exceed_keys() {
    for k in ALL {
        assert!(k.display_key_count() <= k.key_count());
        let (rows, cols) = k.key_layout();
        assert!(rows as u32 * cols as u32 >= k.display_key_count() as u32);
        if !k.is_akp03() {
            assert!(rows as u32 * cols as u32 >= k.key_count() as u32);
        }
    }
}

#[test]
fn counts_and_sizes() {
    assert_eq!(Kind::Akp153.key_count(), 18);
    assert_eq!(Kind::Akp815.key_count(), 15);
    assert_eq!(Kind::Akp03.key_count(), 9);
    assert_eq!(Kind::Akp03.display_key_count(), 6);
    assert_eq!(Kind::Akp03.encoder_count(), 3);
    assert_eq!(Kind::Akp153.encoder_count(), 0);
    assert_eq!(Kind::Akp153R.lcd_strip_size(), Some((854, 480)));
    assert_eq!(Kind::Akp815.lcd_strip_size(), Some((800, 480)));
    assert_eq!(Kind::Akp03E.lcd_strip_size(), None);
    assert_eq!(Kind::Akp03E.boot_logo_size(), Some((320, 240)));
    assert_eq!(Kind::Akp815.key_layout(), (5, 3));
}

#[test]
fn generations() {
    for k in ALL {
        assert_ne!(k.is_v1_api(), k.is_v2_api());
        assert_eq!(k.is_v2_api(), k.is_akp03());
    }
    assert!(Kind::Akp815.is_v1_api());
}

#[test]
fn image_formats() {
    let f = Kind::Akp153.key_image_format();
    assert_eq!(f.size, (85, 85));
    assert_eq!(f.rotation, ImageRotation::Rot90);
    assert_eq!(f.mirror, ImageMirroring::Both);
    assert_eq!(Kind::Akp815.key_image_format().rotation, ImageRotation::Rot180);
    assert_eq!(Kind::Akp03RRev2.key_image_format().size, (64, 64));
    assert_eq!(Kind::Akp03.key_image_format().size, (60, 60));
    assert_eq!(Kind::Akp03.logo_image_format().size, (240, 320));
    assert_eq!(Kind::Akp815.logo_image_format().size, (800, 480));
}

#[test]
fn key_maps_are_inverse_bijections() {
    for k in ALL {
        let n = k.key_count();
        let mut seen = vec![false; n as usize];
        for key in 0..n {
            let wire = ajazz_sdk::util::device_key_index(&k, key);
            assert!(wire < n);
            assert!(!seen[wire as usize]);
            seen[wire as usize] = true;
            assert_eq!(ajazz_sdk::util::logical_key_index(&k, wire), key);
        }
    }
}

#[test]
fn akp153_table_values() {
    assert_eq!(elgato_to_ajazz153(&Kind::Akp153, 0), 12);
    assert_eq!(elgato_to_ajazz153(&Kind::Akp153, 5), 15);
    assert_eq!(elgato_to_ajazz153(&Kind::Akp153, 17), 17);
    assert_eq!(elgato_to_ajazz153(&Kind::Akp153, 40), 40);
    assert_eq!(ajazz153_to_elgato_input(&Kind::Akp153, 12), 0);
    assert_eq!(ajazz153_to_elgato_input(&Kind::Akp153, 0), 4);
}

#[test]
fn inverse_index_values() {
    assert_eq!(inverse_key_index(&Kind::Akp815, 0), 14);
    assert_eq!(inverse_key_index(&Kind::Akp815, 14), 0);
    assert_eq!(inverse_key_index(&Kind::Akp815, 15), 15);
}
