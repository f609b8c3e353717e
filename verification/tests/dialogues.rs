use std::collections::VecDeque;
use tango_driver::dialogues::{
    Dialogue, DialogueCharacter, DialogueList, DialogueSection, DialogueState,
};

fn section(character: DialogueCharacter, lines: &[&str]) -> DialogueSection {
    DialogueSection {
        character,
        list: lines.iter().map(|l| l.to_string()).collect::<VecDeque<String>>(),
    }
}

fn sample_dialogue(name: &str) -> Dialogue {
    let sections: VecDeque<DialogueSection> = VecDeque::from(vec![
        section(DialogueCharacter::Driver, &["hi", "there"]),
        section(DialogueCharacter::Passenger, &[]),
        section(DialogueCharacter::Driver, &["bye"]),
    ]);
    Dialogue::new(name.to_string(), sections)
}

#[test]
fn lines_come_in_order_and_skip_empty_sections() {
    let mut d = sample_dialogue("p1");

    let c = d.next_dialogue().unwrap();
    assert_eq!(c.character, DialogueCharacter::Driver);
    assert_eq!(c.text, "hi");

    let c = d.next_dialogue().unwrap();
    assert_eq!(c.character, DialogueCharacter::Driver);
    assert_eq!(c.text, "there");

    let c = d.next_dialogue().unwrap();
    assert_eq!(c.character, DialogueCharacter::Driver);
    assert_eq!(c.text, "bye");

    assert!(d.next_dialogue().is_none());
    assert!(d.next_dialogue().is_none());
}

#[test]
fn empty_dialogue_has_no_lines() {
    let mut d = Dialogue::new("p9".to_string(), VecDeque::new());
    assert!(d.next_dialogue().is_none());
}

#[test]
fn sections_pop_their_lines() {
    let mut s = section(DialogueCharacter::Passenger, &["one"]);
    assert_eq!(s.next_dialogue(), Some("one".to_string()));
    assert_eq!(s.next_dialogue(), None);
}

#[test]
fn lookup_finds_the_first_match() {
    let list = DialogueList {
        list: vec![sample_dialogue("p1"), sample_dialogue("p2"), sample_dialogue("p1")],
    };
    let d = list.get(&"p2".to_string()).unwrap();
    assert_eq!(d.name, "p2");
    assert!(list.get(&"p7".to_string()).is_none());
}

#[test]
fn a_fetched_dialogue_is_a_fresh_copy() {
    let list = DialogueList { list: vec![sample_dialogue("p1")] };
    let mut first = list.get(&"p1".to_string()).unwrap();
    assert_eq!(first.next_dialogue().unwrap().text, "hi");
    // Walking the copy does not consume the stored dialogue.
    let mut second = list.get(&"p1".to_string()).unwrap();
    assert_eq!(second.next_dialogue().unwrap().text, "hi");
}

#[test]
fn display_state_walks_a_dialogue_then_goes_idle() {
    let list = DialogueList { list: vec![sample_dialogue("p1")] };
    let mut state = DialogueState::default();
    assert!(!state.active);
    assert!(state.handle_dialogue().is_none());

    state.load_dialogue(&"p1".to_string(), &list);
    assert!(state.active);

    assert_eq!(state.handle_dialogue().unwrap().text, "hi");
    assert_eq!(state.handle_dialogue().unwrap().text, "there");
    assert_eq!(state.handle_dialogue().unwrap().text, "bye");
    assert!(state.active);

    assert!(state.handle_dialogue().is_none());
    assert!(!state.active);
}

#[test]
fn loading_an_unknown_name_clears_the_dialogue() {
    let list = DialogueList { list: vec![sample_dialogue("p1")] };
    let mut state = DialogueState::default();
    state.load_dialogue(&"p8".to_string(), &list);
    assert!(state.active);
    assert!(state.current.is_none());
}

#[test]
fn speakers_have_display_names() {
    assert_eq!(DialogueCharacter::Driver.name(), "Driver");
    assert_eq!(DialogueCharacter::Passenger.name(), "Passenger");
}
