//! One pending access request: what the requester sent, what was derived
//! from it, the operator's selection so far, and the reply sink.

use crate::laws::law_seeded_within_groups;
use crate::model::{
    active_option, first_option_at, hide_command, is_modal, keys_within, option_labels, seeded,
    show_command, RequestView, SurfaceCommand,
};
use crate::options::{choice_view, labels_of, text_of, AccessDialogOptions};
use crate::selection::{pairs_of, Selection};
use vstd::prelude::*;

verus! {

/// A pending access request. `S` is the type of the reply sink, which this
/// crate stores and hands back but never uses.
///
/// Two facts hold of every value: each key of the selection is the id of one
/// of the request's choice groups, and the stored label lists are those of
/// the request's choice groups.
pub struct AccessDialogArgs<S> {
    handle: String,
    app_id: String,
    parent_window: String,
    title: String,
    subtitle: String,
    body: String,
    options: AccessDialogOptions,
    active_choices: Selection,
    choice_labels: Vec<Vec<String>>,
    tx: S,
}

impl<S> View for AccessDialogArgs<S> {
    type V = RequestView<S>;

    closed spec fn view(&self) -> RequestView<S> {
        RequestView {
            handle: self.handle@,
            app_id: self.app_id@,
            parent_window: self.parent_window@,
            title: self.title@,
            subtitle: self.subtitle@,
            body: self.body@,
            modal: self.options.modal,
            deny_label: text_of(self.options.deny_label),
            grant_label: text_of(self.options.grant_label),
            icon: text_of(self.options.icon),
            groups: self.options.groups(),
            selection: self.active_choices@,
            tx: self.tx,
        }
    }
}

/// A position of a list as contracts see it.
pub open spec fn position_of(index: Option<usize>) -> Option<int> {
    match index {
        Some(j) => Some(j as int),
        None => None,
    }
}

impl<S> AccessDialogArgs<S> {
    #[verifier::type_invariant]
    spec fn consistent(self) -> bool {
        &&& keys_within(self.options.groups(), self.active_choices@)
        &&& labels_of(self.choice_labels@) == option_labels(self.options.groups())
    }

    /// Accepts a request: the selection starts with the initial option of
    /// every choice group that names one, and the label lists are taken from
    /// the choice groups.
    pub fn new(
        handle: &str,
        app_id: &str,
        parent_window: &str,
        title: &str,
        subtitle: &str,
        body: &str,
        options: AccessDialogOptions,
        tx: S,
    ) -> (args: AccessDialogArgs<S>)
        ensures
            args@ == (RequestView {
                handle: handle@,
                app_id: app_id@,
                parent_window: parent_window@,
                title: title@,
                subtitle: subtitle@,
                body: body@,
                modal: options.modal,
                deny_label: text_of(options.deny_label),
                grant_label: text_of(options.grant_label),
                icon: text_of(options.icon),
                groups: options.groups(),
                selection: seeded(options.groups()),
                tx,
            }),
    {
        let choice_labels = options.choice_labels();
        let active_choices = options.initial_choices();
        proof {
            law_seeded_within_groups(options.groups());
        }
        AccessDialogArgs {
            handle: handle.to_owned(),
            app_id: app_id.to_owned(),
            parent_window: parent_window.to_owned(),
            title: title.to_owned(),
            subtitle: subtitle.to_owned(),
            body: body.to_owned(),
            options,
            active_choices,
            choice_labels,
            tx,
        }
    }

    /// The handle that ties the request to its requester.
    pub fn handle(&self) -> (s: &String)
        ensures
            s@ == self@.handle,
    {
        &self.handle
    }

    /// The id of the application that asks.
    pub fn app_id(&self) -> (s: &String)
        ensures
            s@ == self@.app_id,
    {
        &self.app_id
    }

    /// The identifier of the window the dialog belongs to.
    pub fn parent_window(&self) -> (s: &String)
        ensures
            s@ == self@.parent_window,
    {
        &self.parent_window
    }

    /// The title of the dialog.
    pub fn title(&self) -> (s: &String)
        ensures
            s@ == self@.title,
    {
        &self.title
    }

    /// The subtitle of the dialog.
    pub fn subtitle(&self) -> (s: &String)
        ensures
            s@ == self@.subtitle,
    {
        &self.subtitle
    }

    /// The body text of the dialog.
    pub fn body(&self) -> (s: &String)
        ensures
            s@ == self@.body,
    {
        &self.body
    }

    /// The options the request came with.
    pub fn options(&self) -> (options: &AccessDialogOptions)
        ensures
            options.modal == self@.modal,
            text_of(options.deny_label) == self@.deny_label,
            text_of(options.grant_label) == self@.grant_label,
            text_of(options.icon) == self@.icon,
            options.groups() == self@.groups,
    {
        &self.options
    }

    /// The operator's selection so far. Each of its keys is the id of one of
    /// the request's choice groups.
    pub fn active_choices(&self) -> (selection: &Selection)
        ensures
            selection@ == self@.selection,
            keys_within(self@.groups, self@.selection),
    {
        proof {
            use_type_invariant(self);
        }
        &self.active_choices
    }

    /// For every choice group the labels of its options.
    pub fn choice_labels(&self) -> (labels: &Vec<Vec<String>>)
        ensures
            labels_of(labels@) == option_labels(self@.groups),
    {
        proof {
            use_type_invariant(self);
        }
        &self.choice_labels
    }

    /// The reply sink.
    pub fn tx(&self) -> (tx: &S)
        ensures
            *tx == self@.tx,
    {
        &self.tx
    }

    /// The command that presents this request: a window for a modal dialog,
    /// a layer surface otherwise.
    pub fn get_surface(&self) -> (command: SurfaceCommand)
        ensures
            command == show_command(self@.modal),
    {
        if self.is_modal() {
            SurfaceCommand::GetWindow
        } else {
            SurfaceCommand::GetLayerSurface
        }
    }

    /// The command that takes the presentation of this request down.
    pub fn destroy_surface(&self) -> (command: SurfaceCommand)
        ensures
            command == hide_command(self@.modal),
    {
        if self.is_modal() {
            SurfaceCommand::CloseWindow
        } else {
            SurfaceCommand::DestroyLayerSurface
        }
    }

    /// Whether the dialog is modal; an absent flag counts as "no".
    pub fn is_modal(&self) -> (modal: bool)
        ensures
            modal == is_modal(self@.modal),
    {
        match self.options.modal {
            Some(m) => m,
            None => false,
        }
    }

    /// Records that the operator picked option `option_index` of choice group
    /// `group_index`. A pick that names no option of the request changes
    /// nothing.
    pub fn select(self, group_index: usize, option_index: usize) -> (args: AccessDialogArgs<S>)
        ensures
            args@ == self@.picked(group_index as int, option_index as int),
    {
        proof {
            use_type_invariant(&self);
        }
        let ghost before = self@;
        let AccessDialogArgs {
            handle,
            app_id,
            parent_window,
            title,
            subtitle,
            body,
            options,
            active_choices,
            choice_labels,
            tx,
        } = self;
        let mut active_choices = active_choices;
        if let Some(groups) = &options.choices {
            if group_index < groups.len() {
                let group = &groups[group_index];
                assert(options.groups()[group_index as int] == choice_view(*group));
                if option_index < group.2.len() {
                    active_choices.insert(group.0.clone(), group.2[option_index].0.clone());
                }
            }
        }
        assert(active_choices@ == before.picked(group_index as int, option_index as int).selection);
        AccessDialogArgs {
            handle,
            app_id,
            parent_window,
            title,
            subtitle,
            body,
            options,
            active_choices,
            choice_labels,
            tx,
        }
    }

    /// The position that the drop-down of choice group `group_index` shows as
    /// active: that of the first option whose id is the one selected for the
    /// group's id. There is none where the group has no selection, where the
    /// selected id is not among the group's options, and where the request
    /// has no group of that index.
    #[verifier::loop_isolation(false)]
    pub fn active_index(&self, group_index: usize) -> (active: Option<usize>)
        ensures
            group_index >= self@.groups.len() ==> active is None,
            group_index < self@.groups.len() ==> active_option(
                self@.groups[group_index as int],
                self@.selection,
                position_of(active),
            ),
    {
        match &self.options.choices {
            Some(groups) => {
                if group_index >= groups.len() {
                    return None;
                }
                let group = &groups[group_index];
                assert(self@.groups[group_index as int] == choice_view(*group));
                match self.active_choices.get(&group.0) {
                    Some(chosen) => {
                        let options = &group.2;
                        let mut j: usize = 0;
                        while j < options.len()
                            invariant
                                j <= options.len(),
                                forall|k: int|
                                    0 <= k < j ==> (#[trigger] pairs_of(options@)[k]).0
                                        != chosen@,
                            decreases options.len() - j,
                        {
                            if options[j].0 == *chosen {
                                assert(first_option_at(pairs_of(options@), chosen@, j as int));
                                return Some(j);
                            }
                            j += 1;
                        }
                        None
                    },
                    None => None,
                }
            },
            None => None,
        }
    }

    /// Gives up the request: its reply sink and its selection.
    pub fn into_reply_parts(self) -> (parts: (S, Selection))
        ensures
            parts.0 == self@.tx,
            parts.1@ == self@.selection,
            keys_within(self@.groups, self@.selection),
    {
        proof {
            use_type_invariant(&self);
        }
        (self.tx, self.active_choices)
    }
}

} // verus!
