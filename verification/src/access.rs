//! The arbiter: at most one access request is current; submitting another
//! one cancels it, and the operator's decision resolves it. Every transition
//! returns what is to be done outside: commands for the windowing layer and,
//! where a request ends, its reply sink together with the outcome to send.

use crate::args::AccessDialogArgs;
use crate::model::{msg_step, submit_step, Choices, Msg, ReplyView, RequestView, Step, SurfaceCommand};
use crate::response::{AccessError, PortalResponse};
use crate::selection::{distinct_keys, pairs_map, pairs_of};
use vstd::prelude::*;

verus! {

/// What an approved request hands back: for every choice group with a
/// selection, the pair `(group id, option id)`.
#[derive(Debug, Clone, PartialEq, Eq)]
pub struct AccessDialogResult {
    pub choices: Vec<(String, String)>,
}

impl View for AccessDialogResult {
    type V = Choices;

    open spec fn view(&self) -> Choices {
        pairs_map(pairs_of(self.choices@))
    }
}

/// The model of an outcome.
pub open spec fn response_view(response: PortalResponse<AccessDialogResult>) -> PortalResponse<
    Choices,
> {
    match response {
        PortalResponse::Success(result) => PortalResponse::Success(result@),
        PortalResponse::Cancelled => PortalResponse::Cancelled,
        PortalResponse::Other => PortalResponse::Other,
    }
}

/// One resolution to deliver: the reply sink of a request that has ended,
/// and the outcome to send through it. The sink has left the arbiter, so a
/// request is resolved at most once.
pub struct Reply<S> {
    pub tx: S,
    pub response: PortalResponse<AccessDialogResult>,
}

impl<S> View for Reply<S> {
    type V = ReplyView<S>;

    open spec fn view(&self) -> ReplyView<S> {
        ReplyView { tx: self.tx, response: response_view(self.response) }
    }
}

/// What a transition asks of the outside: the commands for the windowing
/// layer, in order, and the resolution to deliver, if a request has ended.
pub struct Update<S> {
    pub commands: Vec<SurfaceCommand>,
    pub reply: Option<Reply<S>>,
}

/// The state of the arbiter: the current request, if there is one.
pub struct CosmicPortal<S> {
    pub access_args: Option<AccessDialogArgs<S>>,
}

impl<S> View for CosmicPortal<S> {
    type V = Option<RequestView<S>>;

    open spec fn view(&self) -> Option<RequestView<S>> {
        match self.access_args {
            Some(args) => Some(args@),
            None => None,
        }
    }
}

/// The transition that leads to the state `portal` and asks for `update`.
pub open spec fn step_of<S>(portal: CosmicPortal<S>, update: Update<S>) -> Step<S> {
    Step {
        current: portal@,
        commands: update.commands@,
        reply: match update.reply {
            Some(reply) => Some(reply@),
            None => None,
        },
    }
}

impl<S> CosmicPortal<S> {
    /// An arbiter without a current request.
    pub fn new() -> (portal: CosmicPortal<S>)
        ensures
            portal@ is None,
    {
        CosmicPortal { access_args: None }
    }

    /// Whether a request is current.
    pub fn is_pending(&self) -> (pending: bool)
        ensures
            pending == self@.is_some(),
    {
        self.access_args.is_some()
    }
}

/// Handles an event of the dialog.
///
/// `Allow` and `Cancel` end the current request: the returned update carries
/// its reply sink with `Success` of the selection, or with `Cancelled`, and
/// the command that takes the dialog down; no request is current afterwards.
/// With no current request both fail with `InvariantViolation` and change
/// nothing. `Choice` records a pick in the selection of the current request;
/// it asks for nothing, and a pick that names no option, or that arrives
/// while no request is current, changes nothing.
pub fn update_msg<S>(portal: &mut CosmicPortal<S>, msg: Msg) -> (outcome: Result<
    Update<S>,
    AccessError,
>)
    ensures
        match outcome {
            Ok(update) => msg_step(old(portal)@, msg) == Ok::<Step<S>, AccessError>(
                step_of(*final(portal), update),
            ),
            Err(e) => msg_step(old(portal)@, msg) == Err::<Step<S>, AccessError>(e)
                && *final(portal) == *old(portal),
        },
        outcome matches Ok(update) ==> (update.reply matches Some(reply) ==> (
        reply.response matches PortalResponse::Success(result) ==> distinct_keys(
            pairs_of(result.choices@),
        ))),
{
    match msg {
        Msg::Allow => {
            if portal.access_args.is_none() {
                return Err(AccessError::InvariantViolation);
            }
            let args = portal.access_args.take().unwrap();
            let mut commands: Vec<SurfaceCommand> = Vec::new();
            commands.push(args.destroy_surface());
            let (tx, selection) = args.into_reply_parts();
            let choices = selection.into_pairs();
            let reply = Reply {
                tx,
                response: PortalResponse::Success(AccessDialogResult { choices }),
            };
            let update = Update { commands, reply: Some(reply) };
            proof {
                let want = msg_step(old(portal)@, msg).unwrap();
                let got = step_of(*portal, update);
                assert(got.commands =~= want.commands);
            }
            Ok(update)
        },
        Msg::Cancel => {
            if portal.access_args.is_none() {
                return Err(AccessError::InvariantViolation);
            }
            let args = portal.access_args.take().unwrap();
            let mut commands: Vec<SurfaceCommand> = Vec::new();
            commands.push(args.destroy_surface());
            let (tx, _) = args.into_reply_parts();
            let reply = Reply { tx, response: PortalResponse::Cancelled };
            let update = Update { commands, reply: Some(reply) };
            proof {
                let want = msg_step(old(portal)@, msg).unwrap();
                let got = step_of(*portal, update);
                assert(got.commands =~= want.commands);
            }
            Ok(update)
        },
        Msg::Choice(group_index, option_index) => {
            match portal.access_args.take() {
                Some(args) => {
                    portal.access_args = Some(args.select(group_index, option_index));
                },
                None => {},
            }
            let update = Update { commands: Vec::new(), reply: None };
            proof {
                let want = msg_step(old(portal)@, msg).unwrap();
                let got = step_of(*portal, update);
                assert(got.commands =~= want.commands);
            }
            Ok(update)
        },
    }
}

/// Submits a request. A request that was current ends as cancelled: the
/// update carries its reply sink with `Cancelled` and first the command that
/// takes its dialog down. Then `msg` is current, and the last command of the
/// update presents it.
pub fn update_args<S>(portal: &mut CosmicPortal<S>, msg: AccessDialogArgs<S>) -> (update: Update<S>)
    ensures
        step_of(*final(portal), update) == submit_step(old(portal)@, msg@),
{
    let mut commands: Vec<SurfaceCommand> = Vec::new();
    let mut reply: Option<Reply<S>> = None;
    match portal.access_args.take() {
        Some(args) => {
            commands.push(args.destroy_surface());
            let (tx, _) = args.into_reply_parts();
            reply = Some(Reply { tx, response: PortalResponse::Cancelled });
        },
        None => {},
    }
    commands.push(msg.get_surface());
    portal.access_args = Some(msg);
    let update = Update { commands, reply };
    proof {
        let want = submit_step(old(portal)@, msg@);
        let got = step_of(*portal, update);
        assert(got.commands =~= want.commands);
    }
    update
}

} // verus!
