use notes::text::{display_timestamp, file_name, storage_key, str_le};

#[test]
fn storage_key_lowers_and_substitutes() {
    assert_eq!(storage_key("My Note"), "my_note");
    assert_eq!(storage_key("my_note"), "my_note");
}

#[test]
fn storage_keys_collide_by_design() {
    assert_eq!(storage_key("My Note"), storage_key("my_note"));
    assert_eq!(storage_key("GROCERIES"), storage_key("groceries"));
}

#[test]
fn storage_key_keeps_other_characters() {
    assert_eq!(storage_key("Città 1"), "città_1");
    assert_eq!(storage_key(""), "");
}

#[test]
fn storage_key_lowers_beyond_ascii() {
    assert_eq!(storage_key("ÉTÉ"), "été");
    assert_eq!(storage_key("Ärger"), "ärger");
}

#[test]
fn file_name_appends_extension() {
    assert_eq!(file_name("My Note"), "my_note.json");
}

#[test]
fn display_timestamp_strips_subseconds() {
    assert_eq!(
        display_timestamp("2024-01-02T03:04:05.678901+00:00"),
        "2024-01-02 03:04:05"
    );
}

#[test]
fn display_timestamp_without_dot_strips_offset() {
    assert_eq!(
        display_timestamp("2024-01-02T03:04:05+00:00"),
        "2024-01-02 03:04:05"
    );
}

#[test]
fn display_timestamp_strips_zulu_and_negative_offsets() {
    assert_eq!(
        display_timestamp("2024-01-02T03:04:05Z"),
        "2024-01-02 03:04:05"
    );
    assert_eq!(
        display_timestamp("2024-01-02T03:04:05-08:00"),
        "2024-01-02 03:04:05"
    );
}

#[test]
fn str_le_orders_timestamps() {
    let t1 = "2024-01-01T00:00:00.000000+00:00";
    let t2 = "2024-01-02T00:00:00.000000+00:00";
    assert!(str_le(t1, t2));
    assert!(!str_le(t2, t1));
    assert!(str_le(t1, t1));
}

#[test]
fn display_timestamp_of_empty_is_empty() {
    assert_eq!(display_timestamp(""), "");
}
