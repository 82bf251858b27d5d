//! The mathematical model that the contracts of this crate speak of: choice
//! groups, requests and the transitions of the arbiter, all as plain values.

use crate::response::{AccessError, PortalResponse};
use crate::selection::PairView;
use vstd::prelude::*;

verus! {

/// A mapping from choice-group id to option id.
pub type Choices = Map<Seq<char>, Seq<char>>;

/// One choice group: its id, its display label, its options as
/// `(option id, option label)` pairs, and the id of the option selected at
/// the start (empty for "none").
pub struct ChoiceView {
    pub id: Seq<char>,
    pub label: Seq<char>,
    pub options: Seq<PairView>,
    pub initial: Seq<char>,
}

/// One access request as the arbiter sees it. `tx` is the reply sink.
pub struct RequestView<S> {
    pub handle: Seq<char>,
    pub app_id: Seq<char>,
    pub parent_window: Seq<char>,
    pub title: Seq<char>,
    pub subtitle: Seq<char>,
    pub body: Seq<char>,
    pub modal: Option<bool>,
    pub deny_label: Option<Seq<char>>,
    pub grant_label: Option<Seq<char>>,
    pub icon: Option<Seq<char>>,
    pub groups: Seq<ChoiceView>,
    pub selection: Choices,
    pub tx: S,
}

/// What the windowing layer is asked to do.
#[derive(Debug, Clone, Copy, PartialEq, Eq, Structural)]
pub enum SurfaceCommand {
    /// Open a window for a modal dialog.
    GetWindow,
    /// Open a layer surface for a dialog that is not modal.
    GetLayerSurface,
    /// Close the window of a modal dialog.
    CloseWindow,
    /// Remove the layer surface of a dialog that is not modal.
    DestroyLayerSurface,
}

/// An event of the dialog: the operator grants, dismisses, or picks option
/// `.1` of choice group `.0`.
#[derive(Debug, Clone, Copy, PartialEq, Eq, Structural)]
pub enum Msg {
    Allow,
    Cancel,
    Choice(usize, usize),
}

/// One resolution of a reply sink: the sink and the outcome handed to it.
pub struct ReplyView<S> {
    pub tx: S,
    pub response: PortalResponse<Choices>,
}

/// The result of one transition: the request that is current afterwards,
/// the commands for the windowing layer in the order in which they are to be
/// issued, and the resolution to deliver, if any.
pub struct Step<S> {
    pub current: Option<RequestView<S>>,
    pub commands: Seq<SurfaceCommand>,
    pub reply: Option<ReplyView<S>>,
}

/// Whether a dialog with this modality flag is shown in a window of its own.
/// An absent flag counts as "not modal".
pub open spec fn is_modal(modal: Option<bool>) -> bool {
    modal == Some(true)
}

/// The command that presents a request.
pub open spec fn show_command(modal: Option<bool>) -> SurfaceCommand {
    if is_modal(modal) {
        SurfaceCommand::GetWindow
    } else {
        SurfaceCommand::GetLayerSurface
    }
}

/// The command that takes the presentation of a request down.
pub open spec fn hide_command(modal: Option<bool>) -> SurfaceCommand {
    if is_modal(modal) {
        SurfaceCommand::CloseWindow
    } else {
        SurfaceCommand::DestroyLayerSurface
    }
}

/// The selection a request starts with: every group whose initial option id
/// is not empty contributes `id -> initial`; where several such groups share
/// an id, the last one stands.
pub open spec fn seeded(groups: Seq<ChoiceView>) -> Choices
    decreases groups.len(),
{
    if groups.len() == 0 {
        Map::empty()
    } else {
        let earlier = seeded(groups.drop_last());
        let g = groups.last();
        if g.initial.len() == 0 {
            earlier
        } else {
            earlier.insert(g.id, g.initial)
        }
    }
}

/// `(g, o)` names an option of a group of `groups`.
pub open spec fn in_range(groups: Seq<ChoiceView>, g: int, o: int) -> bool {
    0 <= g < groups.len() && 0 <= o < groups[g].options.len()
}

/// The selection after the operator picked option `o` of group `g`: the
/// group's id now maps to that option's id. A pick that names no option
/// changes nothing.
pub open spec fn pick(groups: Seq<ChoiceView>, selection: Choices, g: int, o: int) -> Choices {
    if in_range(groups, g, o) {
        selection.insert(groups[g].id, groups[g].options[o].0)
    } else {
        selection
    }
}

/// The per-group label lists that the dialog's drop-downs show.
pub open spec fn option_labels(groups: Seq<ChoiceView>) -> Seq<Seq<Seq<char>>> {
    groups.map_values(|g: ChoiceView| g.options.map_values(|o: PairView| o.1))
}

/// `j` is the position of the first option of `options` whose id is `id`.
pub open spec fn first_option_at(options: Seq<PairView>, id: Seq<char>, j: int) -> bool {
    &&& 0 <= j < options.len()
    &&& options[j].0 == id
    &&& forall|k: int| 0 <= k < j ==> (#[trigger] options[k]).0 != id
}

/// The position that a group's drop-down shows as active: that of the first
/// option whose id is the one selected for the group's id; none where the
/// group has no selection or the selected id is not among its options.
pub open spec fn active_option(group: ChoiceView, selection: Choices, active: Option<int>) -> bool {
    match active {
        Some(j) => selection.contains_key(group.id) && first_option_at(
            group.options,
            selection[group.id],
            j,
        ),
        None => !selection.contains_key(group.id) || forall|k: int|
            0 <= k < group.options.len() ==> (#[trigger] group.options[k]).0
                != selection[group.id],
    }
}

/// Every selected key is the id of some group.
pub open spec fn keys_within(groups: Seq<ChoiceView>, selection: Choices) -> bool {
    forall|k: Seq<char>| #[trigger]
        selection.contains_key(k) ==> exists|i: int|
            0 <= i < groups.len() && (#[trigger] groups[i]).id == k
}

impl<S> RequestView<S> {
    /// The request after the operator picked option `o` of group `g`.
    pub open spec fn picked(self, g: int, o: int) -> RequestView<S> {
        RequestView { selection: pick(self.groups, self.selection, g, o), ..self }
    }

    /// The resolution that cancels this request.
    pub open spec fn cancelled(self) -> ReplyView<S> {
        ReplyView { tx: self.tx, response: PortalResponse::Cancelled }
    }

    /// The resolution that approves this request with its present selection.
    pub open spec fn approved(self) -> ReplyView<S> {
        ReplyView { tx: self.tx, response: PortalResponse::Success(self.selection) }
    }
}

/// Submitting `request`: a current request is resolved as cancelled and its
/// presentation taken down; then `request` becomes current and is presented.
pub open spec fn submit_step<S>(current: Option<RequestView<S>>, request: RequestView<S>) -> Step<
    S,
> {
    match current {
        Some(old) => Step {
            current: Some(request),
            commands: seq![hide_command(old.modal), show_command(request.modal)],
            reply: Some(old.cancelled()),
        },
        None => Step {
            current: Some(request),
            commands: seq![show_command(request.modal)],
            reply: None,
        },
    }
}

/// Handling a dialog event. Granting or dismissing resolves the current
/// request, clears it and takes its presentation down; with no current
/// request both are an invariant violation. A pick updates the selection of
/// the current request and has no other effect.
pub open spec fn msg_step<S>(current: Option<RequestView<S>>, msg: Msg) -> Result<
    Step<S>,
    AccessError,
> {
    match msg {
        Msg::Allow => match current {
            Some(r) => Ok(
                Step {
                    current: None,
                    commands: seq![hide_command(r.modal)],
                    reply: Some(r.approved()),
                },
            ),
            None => Err(AccessError::InvariantViolation),
        },
        Msg::Cancel => match current {
            Some(r) => Ok(
                Step {
                    current: None,
                    commands: seq![hide_command(r.modal)],
                    reply: Some(r.cancelled()),
                },
            ),
            None => Err(AccessError::InvariantViolation),
        },
        Msg::Choice(g, o) => Ok(
            Step {
                current: match current {
                    Some(r) => Some(r.picked(g as int, o as int)),
                    None => None,
                },
                commands: Seq::empty(),
                reply: None,
            },
        ),
    }
}

} // verus!
