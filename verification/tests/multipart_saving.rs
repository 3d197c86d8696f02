use water_http::framework_http::request::multipart_form::{HttpMultiPartFormDataField, SaveMetadataForMultipart};
use water_http::framework_http::request::saving::{save_finish, save_step, FinishedField, SaveState};

fn field(h: &str) -> HttpMultiPartFormDataField {
    HttpMultiPartFormDataField::from_string(h).ok().unwrap()
}

#[test]
fn a_saved_field_gets_its_file_and_its_chunks_are_written() {
    let rules = [SaveMetadataForMultipart::new("avatar", "./uploads")];
    let mut state = SaveState::new();
    let avatar = field("Content-Disposition: form-data; name=\"avatar\"; filename=\"a.png\"");
    let first = save_step(&mut state, &avatar, b"abc", &rules);
    assert!(first.finished.is_none());
    assert_eq!(first.create_at, Some("./uploads/a.png".to_string()));
    assert!(first.write);
    let second = save_step(&mut state, &avatar, b"def", &rules);
    assert!(second.finished.is_none());
    assert!(second.create_at.is_none());
    assert!(second.write);
    assert!(state.collected.is_empty());
    match save_finish(state) {
        Some(FinishedField::Saved(f)) => assert_eq!(f.get_name_key(), "avatar"),
        _ => panic!("a saved field was expected"),
    }
}

#[test]
fn a_field_without_rule_gathers_its_chunks_once() {
    let rules = [SaveMetadataForMultipart::new("avatar", "./uploads")];
    let mut state = SaveState::new();
    let note = field("Content-Disposition: form-data; name=\"note\"; filename=\"n.txt\"");
    let a = save_step(&mut state, &note, b"he", &rules);
    assert!(a.create_at.is_none());
    assert!(!a.write);
    save_step(&mut state, &note, b"llo", &rules);
    assert_eq!(state.collected, b"hello".to_vec());
    match save_finish(state) {
        Some(FinishedField::Rest(f, bytes)) => {
            assert_eq!(f.get_name_key(), "note");
            assert_eq!(bytes, b"hello".to_vec());
        }
        _ => panic!("a field with its bytes was expected"),
    }
}

#[test]
fn another_file_name_ends_the_field_being_collected() {
    let rules = [SaveMetadataForMultipart::new("avatar", "./uploads/me.png")];
    let mut state = SaveState::new();
    let note = field("Content-Disposition: form-data; name=\"note\"; filename=\"n.txt\"");
    let avatar = field("Content-Disposition: form-data; name=\"avatar\"; filename=\"a.png\"");
    save_step(&mut state, &note, b"text", &rules);
    let switch = save_step(&mut state, &avatar, b"png", &rules);
    match switch.finished {
        Some(FinishedField::Rest(f, bytes)) => {
            assert_eq!(f.get_name_key(), "note");
            assert_eq!(bytes, b"text".to_vec());
        }
        _ => panic!("the note field was expected to end"),
    }
    assert_eq!(switch.create_at, Some("./uploads/me.png".to_string()));
    assert!(switch.write);
    assert!(state.collected.is_empty());
    let back = save_step(&mut state, &note, b"x", &rules);
    assert!(matches!(back.finished, Some(FinishedField::Saved(_))));
    assert!(!back.write);
    assert_eq!(state.collected, b"x".to_vec());
}

#[test]
fn nothing_ends_when_nothing_was_gathered() {
    assert!(save_finish(SaveState::new()).is_none());
}
