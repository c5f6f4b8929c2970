use beat_sharer::codes::{code_from_filename, parse_code_list, parse_index, serialize_code_list};
use beat_sharer::error::APIErr;
use beat_sharer::parse::parse_song_info;
use beat_sharer::song::SongInfo;

#[test]
fn parses_all_three_fields() {
    let body = "{\"downloadURL\": \"https://cdn.x/a.zip\", \"songName\": \"Tune\", \"metadata\": {\"levelAuthorName\": \"Mapper\"}}]}}},\"extra\": 1}";
    let info = parse_song_info(String::from("1e3f"), body).unwrap();
    assert_eq!(info.id, "1e3f");
    assert_eq!(info.download_url, "https://cdn.x/a.zip");
    assert_eq!(info.name, "Tune");
    assert_eq!(info.author, "Mapper");
}

#[test]
fn missing_payload_location_is_song_not_found() {
    let body = "{\"songName\": \"Tune\", \"levelAuthorName\": \"Mapper\"}";
    let r = parse_song_info(String::from("x"), body);
    assert!(matches!(r, Err(APIErr::SongNotFound)));
}

#[test]
fn missing_delimiter_is_song_not_found() {
    let body = "{\"downloadURL\": \"https://cdn.x/a.zip\"}";
    let r = parse_song_info(String::from("x"), body);
    assert!(matches!(r, Err(APIErr::SongNotFound)));
}

#[test]
fn empty_body_is_song_not_found() {
    let r = parse_song_info(String::from("x"), "");
    assert!(matches!(r, Err(APIErr::SongNotFound)));
}

#[test]
fn label_is_id_name_author() {
    let info = SongInfo {
        id: String::from("1e3f"),
        name: String::from("Tune"),
        author: String::from("Mapper"),
        download_url: String::from("https://cdn.x/a.zip"),
    };
    assert_eq!(info.label(), "1e3f (Tune - Mapper)");
}

#[test]
fn null_body_is_index_not_found() {
    assert_eq!(parse_code_list("null"), Err(APIErr::IndexNotFound));
}

#[test]
fn stored_list_round_trips() {
    let codes = vec![String::from("1e3f"), String::from("a2"), String::from("9xyz")];
    let stored = serialize_code_list(&codes);
    assert_eq!(stored, "1e3f,a2,9xyz,");
    let body = format!("\"{}\"", stored);
    let decoded = parse_code_list(&body).unwrap();
    assert_eq!(decoded, codes);
}

#[test]
fn serialize_empty_list_is_empty() {
    assert_eq!(serialize_code_list(&Vec::new()), "");
}

#[test]
fn decoded_list_splits_on_commas() {
    let decoded = parse_code_list("\"ab,cd,\"").unwrap();
    assert_eq!(decoded, vec![String::from("ab"), String::from("cd")]);
}

#[test]
fn short_code_is_kept() {
    assert_eq!(
        code_from_filename("1e3f (Tune - Mapper)"),
        Some(String::from("1e3f"))
    );
}

#[test]
fn five_char_code_is_kept() {
    assert_eq!(code_from_filename("abcde (x)"), Some(String::from("abcde")));
}

#[test]
fn long_code_is_dropped() {
    assert_eq!(code_from_filename("abcdef (x)"), None);
}

#[test]
fn unmarked_filename_is_dropped() {
    assert_eq!(code_from_filename("README"), None);
}

#[test]
fn index_key_decodes() {
    assert_eq!(parse_index("\"42\""), 42);
    assert_eq!(parse_index("\"0\""), 0);
    assert_eq!(parse_index("\"255\""), 255);
}
#[test]
fn index_allocator_wraps() {
    assert_eq!(beat_sharer::codes::next_index(4), 5);
    assert_eq!(beat_sharer::codes::next_index(255), 0);
}
