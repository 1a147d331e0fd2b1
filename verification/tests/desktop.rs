use tailsend::desktop::{
    civil_from_days, date_stamp, local_peer_info, new_uuid_v4, normalize_picker_name,
    normalize_picker_name_with_scheme, parse_id, percent_decode, picker_file_name,
    received_path_allowed, unique_received_name,
    uuid_v4_from_bytes,
};
use tailsend::protocol::control::PlatformKind;
use tailsend::session::ui::UiReceivedItem;

#[test]
fn test_new_uuid_v4_format() {
    let id = new_uuid_v4();
    let parts: Vec<&str> = id.split('-').collect();
    assert_eq!(parts.len(), 5);
    assert_eq!(
        parts.iter().map(|p| p.len()).collect::<Vec<_>>(),
        vec![8, 4, 4, 4, 12]
    );
    assert!(id.chars().all(|c| c.is_ascii_hexdigit() || c == '-'));
    assert_eq!(&id[14..15], "4");
    assert!(matches!(id.as_bytes()[19], b'8' | b'9' | b'a' | b'b'));
}

#[test]
fn test_civil_from_days() {
    assert_eq!(civil_from_days(0), (1970, 1, 1));
    assert_eq!(civil_from_days(19_723), (2024, 1, 1));
}

#[test]
fn civil_from_days_handles_leap_days_and_days_before_the_epoch() {
    assert_eq!(civil_from_days(-1), (1969, 12, 31));
    assert_eq!(civil_from_days(11_016), (2000, 2, 29));
    assert_eq!(civil_from_days(19_782), (2024, 2, 29));
    assert_eq!(civil_from_days(-719_468), (0, 3, 1));
}

#[test]
fn date_stamp_pads_month_and_day() {
    assert_eq!(date_stamp(0), "19700101");
    assert_eq!(date_stamp(19_723 * 86_400 + 86_399), "20240101");
    assert_eq!(date_stamp(1_756_800_000), "20250902");
}

#[test]
fn uuid_from_bytes_sets_version_and_variant() {
    let text = uuid_v4_from_bytes([0xff; 16]);
    assert_eq!(text, "ffffffff-ffff-4fff-bfff-ffffffffffff");
    let text = uuid_v4_from_bytes([0; 16]);
    assert_eq!(text, "00000000-0000-4000-8000-000000000000");
}

#[test]
fn received_name_skips_all_existing_collision_suffixes() {
    let existing = [
        "report.txt".to_string(),
        "report (1).txt".to_string(),
        "report (2).txt".to_string(),
    ];
    assert_eq!(
        unique_received_name(&existing, "report.txt"),
        "report (3).txt"
    );
}

#[test]
fn received_name_is_kept_when_free() {
    let existing = ["other.txt".to_string()];
    assert_eq!(unique_received_name(&existing, "report.txt"), "report.txt");
}

#[test]
fn transfer_ids_parse_back_and_reject_garbage() {
    let id = parse_id("000102030405060708090a0b0c0d0e0f").unwrap();
    assert_eq!(id, [0, 1, 2, 3, 4, 5, 6, 7, 8, 9, 10, 11, 12, 13, 14, 15]);
    assert_eq!(parse_id("xyz"), Err("Invalid transfer id".to_string()));
}

#[test]
fn percent_decoding_keeps_malformed_escapes() {
    assert_eq!(percent_decode("primary%3Areport.txt"), "primary:report.txt");
    assert_eq!(percent_decode("100%"), "100%");
    assert_eq!(percent_decode("a%zzb"), "a%zzb");
    assert_eq!(percent_decode("%E6%97%A5"), "日");
}

#[test]
fn picker_names_keep_the_last_path_component() {
    assert_eq!(normalize_picker_name("/tmp/report.txt"), Some("report.txt".to_string()));
    assert_eq!(
        normalize_picker_name_with_scheme(
            "content://com.example.documents/document/primary%3Areport.txt",
            true
        ),
        Some("report.txt".to_string())
    );
    assert_eq!(
        normalize_picker_name("raw%3A%2Fstorage%2Femulated%2F0%2FDownload%2Fandroid-real.bin"),
        Some("android-real.bin".to_string())
    );
    assert_eq!(normalize_picker_name_with_scheme("content://picker/", true), None);
}

#[test]
fn local_peer_info_names_the_platform() {
    let info = local_peer_info("macos", "1.2.3".to_string());
    assert_eq!(info.platform, PlatformKind::MacOS.code());
    assert_eq!(info.app_version, "1.2.3");
    let info = local_peer_info("plan9", "1.2.3".to_string());
    assert_eq!(info.platform, PlatformKind::Unknown.code());
}

#[test]
fn picker_file_name_keeps_paths_and_has_a_fallback() {
    assert_eq!(
        picker_file_name(Some("report.txt"), "/tmp/report.txt", 0, None),
        "report.txt"
    );
    assert_eq!(
        picker_file_name(
            Some("report.txt"),
            "/tmp/report.txt",
            0,
            Some("android-real.bin")
        ),
        "android-real.bin"
    );

    let uri = "content://com.example.documents/document/primary%3Areport.txt";
    assert_eq!(picker_file_name(None, uri, 1, None), "report.txt");

    let raw = "raw%3A%2Fstorage%2Femulated%2F0%2FDownload%2Fandroid-real.bin";
    assert_eq!(picker_file_name(Some(raw), raw, 2, None), "android-real.bin");

    assert_eq!(
        picker_file_name(None, "content://picker/", 3, None),
        "selected-file-4"
    );
}

#[test]
fn received_open_rejects_paths_not_reported_by_the_service() {
    let items = vec![UiReceivedItem {
        name: "report.txt".to_string(),
        size: 12,
        local_path_or_handle: "/tmp/ponlet/report.txt".to_string(),
    }];
    assert!(received_path_allowed(&items, "/tmp/ponlet/report.txt"));
    assert!(!received_path_allowed(&items, "/etc/passwd"));
    assert!(!received_path_allowed(&[], "/tmp/ponlet/report.txt"));
}
