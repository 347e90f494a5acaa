use timeular_cli::json::{serialize_activity, serialize_note, serialize_tag};
use timeular_cli::json_read::{parse_activity, parse_note, parse_tag};
use timeular_cli::model::{Activity, Note, Tag};

fn tag(id: u64, key: &str) -> Tag {
    Tag {
        id,
        key: key.to_string(),
        label: format!("label-{}", key),
        scope: "timeular".to_string(),
        space_id: "5".to_string(),
    }
}

fn tags_equal(a: &Tag, b: &Tag) -> bool {
    a.id == b.id && a.key == b.key && a.label == b.label && a.scope == b.scope
        && a.space_id == b.space_id
}

#[test]
fn tag_serializes_to_expected_text() {
    let t = tag(42, "focus");
    assert_eq!(
        serialize_tag(&t),
        "{\"id\":42,\"key\":\"focus\",\"label\":\"label-focus\",\"scope\":\"timeular\",\"spaceId\":\"5\"}"
    );
}

#[test]
fn tag_round_trips() {
    let t = tag(18446744073709551615, "max");
    let back = parse_tag(&serialize_tag(&t)).unwrap();
    assert!(tags_equal(&t, &back));
}

#[test]
fn note_round_trips_with_tags_and_mentions() {
    let n = Note {
        text: Some("deep work".to_string()),
        tags: vec![tag(1, "a"), tag(2, "b")],
        mentions: vec![tag(3, "c")],
    };
    let s = serialize_note(&n);
    let back = parse_note(&s).unwrap();
    assert_eq!(back.text, Some("deep work".to_string()));
    assert_eq!(back.tags.len(), 2);
    assert_eq!(back.mentions.len(), 1);
    assert!(tags_equal(&back.tags[0], &n.tags[0]));
    assert!(tags_equal(&back.tags[1], &n.tags[1]));
    assert!(tags_equal(&back.mentions[0], &n.mentions[0]));
}

#[test]
fn note_absent_text_stays_absent() {
    let n = Note { text: None, tags: vec![], mentions: vec![] };
    let s = serialize_note(&n);
    assert_eq!(s, "{\"text\":null,\"tags\":[],\"mentions\":[]}");
    let back = parse_note(&s).unwrap();
    assert_eq!(back.text, None);
    assert!(back.tags.is_empty());
    assert!(back.mentions.is_empty());
}

#[test]
fn note_empty_text_stays_empty_not_absent() {
    let n = Note { text: Some(String::new()), tags: vec![], mentions: vec![] };
    let s = serialize_note(&n);
    assert_eq!(s, "{\"text\":\"\",\"tags\":[],\"mentions\":[]}");
    let back = parse_note(&s).unwrap();
    assert_eq!(back.text, Some(String::new()));
}

#[test]
fn activity_round_trips_with_optional_fields_present() {
    let a = Activity {
        id: "A1".to_string(),
        name: "Writing".to_string(),
        color: "#fff".to_string(),
        integration: Some("calendar".to_string()),
        space_id: "9".to_string(),
        device_side: Some(3),
    };
    let s = serialize_activity(&a);
    assert_eq!(
        s,
        "{\"id\":\"A1\",\"name\":\"Writing\",\"color\":\"#fff\",\"integration\":\"calendar\",\"spaceId\":\"9\",\"deviceSide\":3}"
    );
    let back = parse_activity(&s).unwrap();
    assert_eq!(back.id, a.id);
    assert_eq!(back.name, a.name);
    assert_eq!(back.color, a.color);
    assert_eq!(back.integration, a.integration);
    assert_eq!(back.space_id, a.space_id);
    assert_eq!(back.device_side, a.device_side);
}

#[test]
fn activity_round_trips_with_optional_fields_absent() {
    let a = Activity {
        id: "A2".to_string(),
        name: "Reading".to_string(),
        color: "#000".to_string(),
        integration: None,
        space_id: "9".to_string(),
        device_side: None,
    };
    let back = parse_activity(&serialize_activity(&a)).unwrap();
    assert_eq!(back.integration, None);
    assert_eq!(back.device_side, None);
}

#[test]
fn strings_with_escapes_round_trip() {
    let a = Activity {
        id: "a\"b".to_string(),
        name: "line\nbreak\tand \\ quote \"x\"".to_string(),
        color: "\r".to_string(),
        integration: Some("\\\"".to_string()),
        space_id: String::new(),
        device_side: None,
    };
    let s = serialize_activity(&a);
    let back = parse_activity(&s).unwrap();
    assert_eq!(back.id, a.id);
    assert_eq!(back.name, a.name);
    assert_eq!(back.color, a.color);
    assert_eq!(back.integration, a.integration);
    assert_eq!(back.space_id, a.space_id);
}

#[test]
fn escaped_quote_is_written_as_backslash_quote() {
    let t = Tag {
        id: 0,
        key: "a\"b".to_string(),
        label: String::new(),
        scope: String::new(),
        space_id: String::new(),
    };
    assert_eq!(
        serialize_tag(&t),
        "{\"id\":0,\"key\":\"a\\\"b\",\"label\":\"\",\"scope\":\"\",\"spaceId\":\"\"}"
    );
}

#[test]
fn malformed_texts_are_rejected() {
    assert!(parse_tag("").is_none());
    assert!(parse_tag("{}").is_none());
    assert!(parse_tag("{\"id\":1,\"key\":\"k\"}").is_none());
    assert!(parse_note("{\"text\":null,\"tags\":[],\"mentions\":[]} ").is_none());
    assert!(parse_activity("{\"id\":\"A1\"}").is_none());
    assert!(parse_tag(
        "{\"id\":99999999999999999999999,\"key\":\"\",\"label\":\"\",\"scope\":\"\",\"spaceId\":\"\"}"
    )
    .is_none());
}

#[test]
fn unterminated_string_is_rejected() {
    assert!(parse_tag("{\"id\":1,\"key\":\"unclosed").is_none());
}
