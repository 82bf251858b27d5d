//! What the dialog of the current request shows, as plain values for the
//! layer that draws it, and which keys stand for which decision.

use crate::access::CosmicPortal;
use crate::args::position_of;
use crate::model::{active_option, option_labels, Msg, RequestView};
use crate::options::{choice_view, labels_of, text_of, texts_of};
use vstd::prelude::*;

verus! {

/// One drop-down of the dialog: its label, the labels of its options, and
/// the position of the option shown as chosen.
#[derive(Debug)]
pub struct ChoiceRow {
    pub label: String,
    pub options: Vec<String>,
    pub active: Option<usize>,
}

/// The content of the dialog. The labels of the two buttons are absent where
/// the request names none.
#[derive(Debug)]
pub struct Dialog {
    pub title: String,
    pub subtitle: String,
    pub body: String,
    pub icon: String,
    pub deny_label: Option<String>,
    pub grant_label: Option<String>,
    pub rows: Vec<ChoiceRow>,
}

/// A key press as far as the dialog cares.
#[derive(Debug, Clone, Copy, PartialEq, Eq, Structural)]
pub enum DialogKey {
    Enter,
    Escape,
    Other,
}

/// The name of the icon to show: the one the request gives, else the icon
/// for a missing image.
pub open spec fn icon_name(icon: Option<Seq<char>>) -> Seq<char> {
    match icon {
        Some(name) => name,
        None => "image-missing"@,
    }
}

/// `row` is the drop-down of group `i` of `request`.
pub open spec fn row_shows<S>(request: RequestView<S>, i: int, row: ChoiceRow) -> bool {
    &&& row.label@ == request.groups[i].label
    &&& texts_of(row.options@) == option_labels(request.groups)[i]
    &&& active_option(request.groups[i], request.selection, position_of(row.active))
}

/// `dialog` is the content of the dialog of `request`: its texts, its icon,
/// and one drop-down for every choice group, in order.
pub open spec fn shows<S>(request: RequestView<S>, dialog: Dialog) -> bool {
    &&& dialog.title@ == request.title
    &&& dialog.subtitle@ == request.subtitle
    &&& dialog.body@ == request.body
    &&& dialog.icon@ == icon_name(request.icon)
    &&& text_of(dialog.deny_label) == request.deny_label
    &&& text_of(dialog.grant_label) == request.grant_label
    &&& dialog.rows@.len() == request.groups.len()
    &&& forall|i: int|
        0 <= i < request.groups.len() ==> row_shows(request, i, #[trigger] dialog.rows@[i])
}

/// The decision that a key stands for: Enter grants, Escape dismisses.
pub fn key_msg(key: DialogKey) -> (msg: Option<Msg>)
    ensures
        msg == match key {
            DialogKey::Enter => Some(Msg::Allow),
            DialogKey::Escape => Some(Msg::Cancel),
            DialogKey::Other => None::<Msg>,
        },
{
    match key {
        DialogKey::Enter => Some(Msg::Allow),
        DialogKey::Escape => Some(Msg::Cancel),
        DialogKey::Other => None,
    }
}

fn cloned_text(text: &Option<String>) -> (copy: Option<String>)
    ensures
        text_of(copy) == text_of(*text),
{
    match text {
        Some(s) => Some(s.clone()),
        None => None,
    }
}

fn cloned_texts(texts: &Vec<String>) -> (copy: Vec<String>)
    ensures
        texts_of(copy@) == texts_of(texts@),
{
    let mut copy: Vec<String> = Vec::new();
    let mut j: usize = 0;
    while j < texts.len()
        invariant
            j <= texts.len(),
            copy@.len() == j,
            forall|k: int| 0 <= k < j ==> (#[trigger] copy@[k])@ == texts@[k]@,
        decreases texts.len() - j,
    {
        copy.push(texts[j].clone());
        j += 1;
    }
    assert(texts_of(copy@) =~= texts_of(texts@));
    copy
}

/// The content of the dialog of the current request; none while no request
/// is current.
pub fn view<S>(portal: &CosmicPortal<S>) -> (dialog: Option<Dialog>)
    ensures
        match dialog {
            Some(d) => portal@ matches Some(request) && shows(request, d),
            None => portal@ is None,
        },
{
    let args = match &portal.access_args {
        Some(args) => args,
        None => { return None; },
    };
    let options = args.options();
    let labels = args.choice_labels();
    let ghost request = args@;
    let mut rows: Vec<ChoiceRow> = Vec::new();
    if let Some(groups) = &options.choices {
        assert(labels@.len() == groups@.len()) by {
            assert(labels_of(labels@).len() == option_labels(request.groups).len());
        }
        let mut i: usize = 0;
        while i < groups.len()
            invariant
                i <= groups@.len(),
                labels@.len() == groups@.len(),
                request == args@,
                options.choices == Some(*groups),
                options.groups() == request.groups,
                labels_of(labels@) == option_labels(request.groups),
                rows@.len() == i,
                forall|k: int| 0 <= k < i ==> row_shows(request, k, #[trigger] rows@[k]),
            decreases groups.len() - i,
        {
            assert(request.groups[i as int] == choice_view(groups@[i as int]));
            assert(texts_of(labels@[i as int]@) == labels_of(labels@)[i as int]);
            let row = ChoiceRow {
                label: groups[i].1.clone(),
                options: cloned_texts(&labels[i]),
                active: args.active_index(i),
            };
            rows.push(row);
            i += 1;
        }
    }
    let icon = match &options.icon {
        Some(name) => name.clone(),
        None => "image-missing".to_owned(),
    };
    Some(
        Dialog {
            title: args.title().clone(),
            subtitle: args.subtitle().clone(),
            body: args.body().clone(),
            icon,
            deny_label: cloned_text(&options.deny_label),
            grant_label: cloned_text(&options.grant_label),
            rows,
        },
    )
}

} // verus!
