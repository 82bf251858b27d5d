//! The options that accompany an access request, and what is derived from
//! them when the request is accepted: the label lists of the drop-downs and
//! the selection the dialog starts with.

use crate::model::{option_labels, seeded, ChoiceView};
use crate::selection::{pairs_of, Selection};
use vstd::prelude::*;

verus! {

/// A choice group as it arrives: `(id, label, options, initial selection)`,
/// the options being `(option id, option label)` pairs. An empty initial
/// selection means that none is given.
pub type Choice = (String, String, Vec<(String, String)>, String);

/// The model of one choice group.
pub open spec fn choice_view(c: Choice) -> ChoiceView {
    ChoiceView { id: c.0@, label: c.1@, options: pairs_of(c.2@), initial: c.3@ }
}

/// The model of a list of choice groups.
pub open spec fn choices_view(v: Seq<Choice>) -> Seq<ChoiceView> {
    v.map_values(|c: Choice| choice_view(c))
}

/// The character sequences held by a list of texts.
pub open spec fn texts_of(v: Seq<String>) -> Seq<Seq<char>> {
    v.map_values(|s: String| s@)
}

/// The character sequences held by a list of lists of texts.
pub open spec fn labels_of(v: Seq<Vec<String>>) -> Seq<Seq<Seq<char>>> {
    v.map_values(|row: Vec<String>| texts_of(row@))
}

/// The model of an optional text.
pub open spec fn text_of(s: Option<String>) -> Option<Seq<char>> {
    match s {
        Some(t) => Some(t@),
        None => None,
    }
}

/// The options of an access dialog. Every one of them may be absent.
#[derive(Debug, Clone)]
pub struct AccessDialogOptions {
    /// Whether the dialog is modal.
    pub modal: Option<bool>,
    /// The label of the button that denies.
    pub deny_label: Option<String>,
    /// The label of the button that grants.
    pub grant_label: Option<String>,
    /// The name of the icon to show.
    pub icon: Option<String>,
    /// The choice groups to offer.
    pub choices: Option<Vec<Choice>>,
}

impl AccessDialogOptions {
    /// The choice groups, none where the option is absent.
    pub open spec fn groups(&self) -> Seq<ChoiceView> {
        match self.choices {
            Some(v) => choices_view(v@),
            None => Seq::empty(),
        }
    }

    /// The number of choice groups.
    pub fn group_count(&self) -> (n: usize)
        ensures
            n == self.groups().len(),
    {
        match &self.choices {
            Some(v) => v.len(),
            None => 0,
        }
    }

    /// For every choice group, in order, the labels of its options, in order.
    pub fn choice_labels(&self) -> (labels: Vec<Vec<String>>)
        ensures
            labels_of(labels@) == option_labels(self.groups()),
    {
        let mut labels: Vec<Vec<String>> = Vec::new();
        if let Some(groups) = &self.choices {
            let mut i: usize = 0;
            while i < groups.len()
                invariant
                    i <= groups.len(),
                    self.choices == Some(*groups),
                    labels@.len() == i,
                    forall|k: int|
                        0 <= k < i ==> texts_of((#[trigger] labels@[k])@) == option_labels(
                            self.groups(),
                        )[k],
                decreases groups.len() - i,
            {
                let options = &groups[i].2;
                let mut row: Vec<String> = Vec::new();
                let mut j: usize = 0;
                while j < options.len()
                    invariant
                        j <= options.len(),
                        row@.len() == j,
                        forall|k: int| 0 <= k < j ==> (#[trigger] row@[k])@ == options@[k].1@,
                    decreases options.len() - j,
                {
                    row.push(options[j].1.clone());
                    j += 1;
                }
                assert(texts_of(row@) =~= option_labels(self.groups())[i as int]);
                labels.push(row);
                i += 1;
            }
        }
        assert(labels_of(labels@) =~= option_labels(self.groups()));
        labels
    }

    /// The selection a dialog with these options starts with.
    pub fn initial_choices(&self) -> (selection: Selection)
        ensures
            selection@ == seeded(self.groups()),
    {
        let mut selection = Selection::new();
        if let Some(groups) = &self.choices {
            let mut i: usize = 0;
            assert(self.groups().take(0) =~= Seq::<ChoiceView>::empty());
            while i < groups.len()
                invariant
                    i <= groups.len(),
                    self.choices == Some(*groups),
                    selection@ == seeded(self.groups().take(i as int)),
                decreases groups.len() - i,
            {
                let group = &groups[i];
                proof {
                    let next = self.groups().take(i + 1);
                    assert(next.drop_last() =~= self.groups().take(i as int));
                    assert(next.last() == choice_view(*group));
                }
                if !group.3.as_str().is_empty() {
                    selection.insert(group.0.clone(), group.3.clone());
                }
                i += 1;
            }
            assert(self.groups().take(groups.len() as int) =~= self.groups());
        }
        selection
    }
}

} // verus!
