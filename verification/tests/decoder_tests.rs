use rustc_serialize::json;
use tweetust::decoder::rename_type_field;

struct Media {
    type_: String,
}

impl rustc_serialize::Decodable for Media {
    fn decode<D: rustc_serialize::Decoder>(d: &mut D) -> Result<Media, D::Error> {
        d.read_struct("Media", 1, |d| {
            Ok(Media {
                type_: d.read_struct_field("type_", 0, rustc_serialize::Decodable::decode)?,
            })
        })
    }
}

fn renamed(s: &str) -> String {
    String::from_utf8(rename_type_field(s)).unwrap()
}

#[test]
fn type_field_decodes_as_type_underscore() {
    let body = r#"{"type":"video"}"#;
    let media: Media = json::decode(&renamed(body)).unwrap();
    assert_eq!(media.type_, "video");
}

#[test]
fn rename_rewrites_exactly_the_key_sequence() {
    assert_eq!(renamed(r#"{"type":"video","x":1}"#), r#"{"type_":"video","x":1}"#);
}

#[test]
fn rename_leaves_other_occurrences_of_the_word_alone() {
    assert_eq!(renamed(r#"{"typex":"a","mytype":"b"}"#), r#"{"typex":"a","mytype":"b"}"#);
    assert_eq!(renamed(r#"{"type" :"spaced"}"#), r#"{"type" :"spaced"}"#);
}

#[test]
fn rename_handles_repeats_and_boundaries() {
    assert_eq!(renamed(r#"{"type":{"type":1}}"#), r#"{"type_":{"type_":1}}"#);
    assert_eq!(renamed(""), "");
    assert_eq!(renamed(r#""type":"#), r#""type_":"#);
}
