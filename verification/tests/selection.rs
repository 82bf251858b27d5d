use portal_access::options::{AccessDialogOptions, Choice};
use portal_access::selection::Selection;

fn text(s: &str) -> String {
    s.to_string()
}

fn group(id: &str, label: &str, options: &[(&str, &str)], initial: &str) -> Choice {
    (
        text(id),
        text(label),
        options.iter().map(|(a, b)| (text(a), text(b))).collect(),
        text(initial),
    )
}

fn options_of(choices: Option<Vec<Choice>>) -> AccessDialogOptions {
    AccessDialogOptions { modal: None, deny_label: None, grant_label: None, icon: None, choices }
}

#[test]
fn empty_selection_has_no_entries() {
    let selection = Selection::new();
    assert_eq!(selection.len(), 0);
    assert!(!selection.contains_key(&text("fmt")));
    assert_eq!(selection.get(&text("fmt")), None);
    assert!(selection.into_pairs().is_empty());
}

#[test]
fn insert_adds_and_replaces() {
    let mut selection = Selection::new();
    selection.insert(text("fmt"), text("a"));
    selection.insert(text("size"), text("l"));
    assert_eq!(selection.len(), 2);
    selection.insert(text("fmt"), text("b"));
    assert_eq!(selection.len(), 2);
    assert_eq!(selection.get(&text("fmt")), Some(&text("b")));
    assert_eq!(selection.get(&text("size")), Some(&text("l")));
    assert!(selection.contains_key(&text("size")));
    assert!(!selection.contains_key(&text("tone")));
    let mut pairs = selection.into_pairs();
    pairs.sort();
    assert_eq!(pairs, vec![(text("fmt"), text("b")), (text("size"), text("l"))]);
}

#[test]
fn empty_key_and_value_are_ordinary_texts() {
    let mut selection = Selection::new();
    selection.insert(text(""), text(""));
    assert_eq!(selection.len(), 1);
    assert_eq!(selection.get(&text("")), Some(&text("")));
}

#[test]
fn initial_choices_skip_groups_without_initial() {
    let options = options_of(Some(vec![
        group("fmt", "Format", &[("a", "A"), ("b", "B")], "a"),
        group("tone", "Tone", &[("x", "X")], ""),
        group("size", "Size", &[("s", "S")], "s"),
    ]));
    let selection = options.initial_choices();
    assert_eq!(selection.len(), 2);
    assert_eq!(selection.get(&text("fmt")), Some(&text("a")));
    assert_eq!(selection.get(&text("size")), Some(&text("s")));
    assert_eq!(selection.get(&text("tone")), None);
}

#[test]
fn initial_choices_take_the_last_group_of_an_id() {
    let options = options_of(Some(vec![
        group("fmt", "Format", &[("a", "A")], "a"),
        group("fmt", "Format again", &[("b", "B")], "b"),
        group("fmt", "Format once more", &[("c", "C")], ""),
    ]));
    let selection = options.initial_choices();
    assert_eq!(selection.len(), 1);
    assert_eq!(selection.get(&text("fmt")), Some(&text("b")));
}

#[test]
fn initial_choice_need_not_be_an_option() {
    let options = options_of(Some(vec![group("fmt", "Format", &[("a", "A")], "zzz")]));
    assert_eq!(options.initial_choices().get(&text("fmt")), Some(&text("zzz")));
}

#[test]
fn absent_choices_give_nothing() {
    let options = options_of(None);
    assert_eq!(options.group_count(), 0);
    assert!(options.choice_labels().is_empty());
    assert_eq!(options.initial_choices().len(), 0);
    let empty = options_of(Some(vec![]));
    assert_eq!(empty.group_count(), 0);
    assert!(empty.choice_labels().is_empty());
    assert_eq!(empty.initial_choices().len(), 0);
}

#[test]
fn choice_labels_list_the_labels_of_every_group() {
    let options = options_of(Some(vec![
        group("fmt", "Format", &[("a", "A"), ("b", "B")], "a"),
        group("none", "Nothing", &[], ""),
        group("size", "Size", &[("s", "Small"), ("m", "Medium"), ("l", "Large")], ""),
    ]));
    assert_eq!(options.group_count(), 3);
    assert_eq!(
        options.choice_labels(),
        vec![
            vec![text("A"), text("B")],
            vec![],
            vec![text("Small"), text("Medium"), text("Large")],
        ]
    );
}
