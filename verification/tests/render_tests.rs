use cmcli::data::{FileRecord, KeyMetadata, SecretKey};
use cmcli::render::{files_width, keys_width, render_files, render_keys};
use cmcli::text::{bool_string, make_dashes, make_spaces, pad_left, pad_right, u32_dec};

fn key(name: &str, time: &str, link: bool) -> SecretKey {
    SecretKey {
        name: String::from(name),
        is_link: link,
        last_saved_time: String::from(time),
        total_versions: 1,
        metadata: KeyMetadata {
            application_type: String::new(),
            classification: String::new(),
            cloud_type: String::new(),
            description: String::new(),
            environment_type: String::new(),
            expiration_time: String::new(),
        },
    }
}

#[test]
fn text_helpers() {
    assert_eq!(make_spaces(3), "   ");
    assert_eq!(make_dashes(4), "----");
    assert_eq!(pad_right("ab", 5), "ab   ");
    assert_eq!(pad_right("abcdef", 5), "abcdef");
    assert_eq!(pad_left("ab", 5), "   ab");
    assert_eq!(pad_left("abcdef", 5), "abcdef");
    assert_eq!(u32_dec(0), "0");
    assert_eq!(u32_dec(42), "42");
    assert_eq!(u32_dec(4294967295), "4294967295");
    assert_eq!(bool_string(true), "true");
    assert_eq!(bool_string(false), "false");
}

#[test]
fn offset_timestamps_render_in_utc() {
    let entries = vec![key("k1", "1970-01-01T01:00:00+01:00", false)];
    let lines = render_keys(&entries);
    assert_eq!(lines[2], "k1    01/01/70 00:00 false");
}

#[test]
fn key_column_width_is_max_of_five_and_longest_name() {
    assert_eq!(keys_width(&vec![]), 5);
    let forty = "a".repeat(40);
    let entries = vec![key("ab", "1970-01-01T00:00:00+00:00", false)];
    assert_eq!(keys_width(&entries), 5);
    let entries = vec![key(&forty, "1970-01-01T00:00:00+00:00", false)];
    assert_eq!(keys_width(&entries), 40);
    let lines = render_keys(&entries);
    assert_eq!(lines[1].len(), 40 + 21);
    let entries = vec![
        key("ab", "1970-01-01T00:00:00+00:00", false),
        key(&forty, "1970-01-01T00:00:00+00:00", false),
    ];
    assert_eq!(keys_width(&entries), 40);
}

#[test]
fn keys_table_empty_set_uses_header_width() {
    let lines = render_keys(&vec![]);
    assert_eq!(lines.len(), 2);
    assert_eq!(lines[0], "Name   Creation Time  Link");
    assert_eq!(lines[1], "-".repeat(26));
}

#[test]
fn keys_table_rows() {
    let entries = vec![
        key("k1", "1970-01-01T00:02:00+00:00", false),
        key("longer-name", "1970-01-01T00:00:00+00:00", true),
    ];
    let lines = render_keys(&entries);
    assert_eq!(lines.len(), 4);
    assert_eq!(lines[0], "Name         Creation Time  Link");
    assert_eq!(lines[1], "-".repeat(11 + 21));
    assert_eq!(lines[2], "k1          01/01/70 00:02 false");
    assert_eq!(lines[3], "longer-name 01/01/70 00:00 true");
}

#[test]
fn keys_table_bad_timestamp_renders_epoch_with_inline_error() {
    let entries = vec![key("k1", "not a timestamp", true)];
    let lines = render_keys(&entries);
    assert_eq!(lines.len(), 4);
    assert!(lines[2].starts_with("Error finding time: "));
    assert_eq!(lines[3], "k1    01/01/70 00:00 true");
    // Rendering is deterministic, error text included.
    assert_eq!(render_keys(&entries), lines);
}

#[test]
fn files_table_empty_is_the_literal_line() {
    let lines = render_files(&vec![]);
    assert_eq!(lines, vec![String::from("No files found")]);
}

#[test]
fn files_table_rows() {
    let files = vec![FileRecord {
        filename: String::from("f.txt"),
        created_at: 60,
        num_chunks: 3,
        size: String::from("123"),
        stream_available: true,
        version: 2,
    }];
    assert_eq!(files_width(&files), 5);
    let lines = render_files(&files);
    assert_eq!(lines.len(), 3);
    assert_eq!(lines[0], "Name   Creation Time Chk     Size Stream V");
    assert_eq!(lines[1], "-".repeat(5 + 37));
    assert_eq!(lines[2], "f.txt 01/01/70 00:01   3      123   true 2");
}
