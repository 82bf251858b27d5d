use portal_access::access::{update_args, update_msg, AccessDialogResult, CosmicPortal, Update};
use portal_access::args::AccessDialogArgs;
use portal_access::model::{Msg, SurfaceCommand};
use portal_access::options::{AccessDialogOptions, Choice};
use portal_access::response::{AccessError, PortalResponse};

fn text(s: &str) -> String {
    s.to_string()
}

fn pair(a: &str, b: &str) -> (String, String) {
    (text(a), text(b))
}

fn group(id: &str, label: &str, options: &[(&str, &str)], initial: &str) -> Choice {
    (
        text(id),
        text(label),
        options.iter().map(|(a, b)| pair(a, b)).collect(),
        text(initial),
    )
}

fn options_with(modal: Option<bool>, choices: Option<Vec<Choice>>) -> AccessDialogOptions {
    AccessDialogOptions { modal, deny_label: None, grant_label: None, icon: None, choices }
}

fn request(tx: u32, modal: Option<bool>, choices: Vec<Choice>) -> AccessDialogArgs<u32> {
    AccessDialogArgs::new(
        "/org/freedesktop/portal/desktop/request/1_1/t",
        "org.example.App",
        "",
        "Title",
        "Subtitle",
        "Body",
        options_with(modal, Some(choices)),
        tx,
    )
}

fn format_group() -> Choice {
    group("fmt", "Format", &[("a", "A"), ("b", "B")], "a")
}

fn sorted(mut pairs: Vec<(String, String)>) -> Vec<(String, String)> {
    pairs.sort();
    pairs
}

fn approved(update: Update<u32>) -> (u32, Vec<(String, String)>) {
    let reply = update.reply.expect("a request that ends is resolved");
    match reply.response {
        PortalResponse::Success(AccessDialogResult { choices }) => (reply.tx, sorted(choices)),
        other => panic!("expected an approval, got {:?}", other),
    }
}

#[test]
fn select_then_approve_reports_the_pick() {
    let mut portal = CosmicPortal::new();
    let update = update_args(&mut portal, request(7, None, vec![format_group()]));
    assert!(update.reply.is_none());
    assert_eq!(update.commands, vec![SurfaceCommand::GetLayerSurface]);
    {
        let current = portal.access_args.as_ref().unwrap();
        assert_eq!(current.active_choices().len(), 1);
        assert_eq!(current.active_choices().get(&text("fmt")), Some(&text("a")));
    }
    let picked = update_msg(&mut portal, Msg::Choice(0, 1)).unwrap();
    assert!(picked.reply.is_none());
    assert!(picked.commands.is_empty());
    let done = update_msg(&mut portal, Msg::Allow).unwrap();
    assert_eq!(done.commands, vec![SurfaceCommand::DestroyLayerSurface]);
    assert_eq!(approved(done), (7, vec![pair("fmt", "b")]));
    assert!(portal.access_args.is_none());
}

#[test]
fn second_submission_cancels_the_first() {
    let mut portal = CosmicPortal::new();
    let first = update_args(&mut portal, request(1, Some(true), vec![]));
    assert!(first.reply.is_none());
    assert_eq!(first.commands, vec![SurfaceCommand::GetWindow]);
    let second = update_args(&mut portal, request(2, None, vec![]));
    let reply = second.reply.unwrap();
    assert_eq!(reply.tx, 1);
    assert_eq!(reply.response, PortalResponse::Cancelled);
    assert_eq!(
        second.commands,
        vec![SurfaceCommand::CloseWindow, SurfaceCommand::GetLayerSurface]
    );
    assert!(portal.is_pending());
    assert_eq!(*portal.access_args.as_ref().unwrap().tx(), 2);
}

#[test]
fn cancelled_request_hears_of_it_through_its_channel() {
    let (tx1, mut rx1) = tokio::sync::mpsc::channel::<PortalResponse<AccessDialogResult>>(1);
    let (tx2, mut rx2) = tokio::sync::mpsc::channel::<PortalResponse<AccessDialogResult>>(1);
    let mut portal = CosmicPortal::new();
    let r1 = AccessDialogArgs::new("/h/1", "app", "", "t", "s", "b", options_with(None, None), tx1);
    let r2 = AccessDialogArgs::new("/h/2", "app", "", "t", "s", "b", options_with(None, None), tx2);
    assert!(update_args(&mut portal, r1).reply.is_none());
    assert!(rx1.try_recv().is_err());
    let reply = update_args(&mut portal, r2).reply.unwrap();
    reply.tx.try_send(reply.response).unwrap();
    assert_eq!(rx1.try_recv().unwrap(), PortalResponse::Cancelled);
    assert!(rx2.try_recv().is_err());
    assert!(portal.is_pending());
}

#[test]
fn decision_without_request_is_an_invariant_violation() {
    let mut portal: CosmicPortal<u32> = CosmicPortal::new();
    assert!(matches!(
        update_msg(&mut portal, Msg::Allow),
        Err(AccessError::InvariantViolation)
    ));
    assert!(matches!(
        update_msg(&mut portal, Msg::Cancel),
        Err(AccessError::InvariantViolation)
    ));
    assert!(!portal.is_pending());
}

#[test]
fn decision_after_the_request_ended_is_an_invariant_violation() {
    let mut portal = CosmicPortal::new();
    update_args(&mut portal, request(1, None, vec![]));
    assert!(update_msg(&mut portal, Msg::Cancel).is_ok());
    assert!(matches!(
        update_msg(&mut portal, Msg::Cancel),
        Err(AccessError::InvariantViolation)
    ));
    assert!(matches!(
        update_msg(&mut portal, Msg::Allow),
        Err(AccessError::InvariantViolation)
    ));
}

#[test]
fn pick_without_request_changes_nothing() {
    let mut portal: CosmicPortal<u32> = CosmicPortal::new();
    let update = update_msg(&mut portal, Msg::Choice(0, 0)).unwrap();
    assert!(update.reply.is_none());
    assert!(update.commands.is_empty());
    assert!(!portal.is_pending());
}

#[test]
fn every_submission_but_the_last_is_cancelled_once() {
    let mut portal = CosmicPortal::new();
    let mut cancelled = Vec::new();
    for tx in 10..15u32 {
        let update = update_args(&mut portal, request(tx, None, vec![]));
        if let Some(reply) = update.reply {
            assert_eq!(reply.response, PortalResponse::Cancelled);
            cancelled.push(reply.tx);
        }
        assert_eq!(*portal.access_args.as_ref().unwrap().tx(), tx);
    }
    assert_eq!(cancelled, vec![10, 11, 12, 13]);
}

#[test]
fn approval_keeps_untouched_initials_and_last_picks() {
    let mut portal = CosmicPortal::new();
    let groups = vec![
        group("fmt", "Format", &[("a", "A"), ("b", "B"), ("c", "C")], "a"),
        group("size", "Size", &[("s", "Small"), ("l", "Large")], "l"),
        group("tone", "Tone", &[("x", "X"), ("y", "Y")], ""),
        group("mode", "Mode", &[("m", "M")], ""),
    ];
    update_args(&mut portal, request(3, None, groups));
    for msg in [Msg::Choice(0, 1), Msg::Choice(2, 1), Msg::Choice(0, 2), Msg::Choice(2, 0)] {
        let update = update_msg(&mut portal, msg).unwrap();
        assert!(update.reply.is_none());
    }
    let done = update_msg(&mut portal, Msg::Allow).unwrap();
    assert_eq!(
        approved(done),
        (3, vec![pair("fmt", "c"), pair("size", "l"), pair("tone", "x")])
    );
}

#[test]
fn stray_picks_change_nothing() {
    let mut portal = CosmicPortal::new();
    update_args(&mut portal, request(4, None, vec![format_group()]));
    for msg in [
        Msg::Choice(1, 0),
        Msg::Choice(0, 2),
        Msg::Choice(usize::MAX, 0),
        Msg::Choice(0, usize::MAX),
        Msg::Choice(7, 7),
    ] {
        let update = update_msg(&mut portal, msg).unwrap();
        assert!(update.reply.is_none());
        assert!(update.commands.is_empty());
        let current = portal.access_args.as_ref().unwrap();
        assert_eq!(current.active_choices().len(), 1);
        assert_eq!(current.active_choices().get(&text("fmt")), Some(&text("a")));
    }
    assert_eq!(approved(update_msg(&mut portal, Msg::Allow).unwrap()), (4, vec![pair("fmt", "a")]));
}

#[test]
fn stray_pick_on_request_without_choices_changes_nothing() {
    let mut portal = CosmicPortal::new();
    let args = AccessDialogArgs::new("/h", "app", "", "t", "s", "b", options_with(None, None), 5u32);
    update_args(&mut portal, args);
    let update = update_msg(&mut portal, Msg::Choice(0, 0)).unwrap();
    assert!(update.reply.is_none());
    assert_eq!(approved(update_msg(&mut portal, Msg::Allow).unwrap()), (5, vec![]));
}

#[test]
fn cancel_ignores_the_selection() {
    let mut portal = CosmicPortal::new();
    update_args(&mut portal, request(6, Some(true), vec![format_group()]));
    update_msg(&mut portal, Msg::Choice(0, 1)).unwrap();
    let done = update_msg(&mut portal, Msg::Cancel).unwrap();
    let reply = done.reply.unwrap();
    assert_eq!(reply.tx, 6);
    assert_eq!(reply.response, PortalResponse::Cancelled);
    assert_eq!(done.commands, vec![SurfaceCommand::CloseWindow]);
    assert!(!portal.is_pending());
}

#[test]
fn cancel_without_any_pick_yields_cancelled() {
    let mut portal = CosmicPortal::new();
    update_args(&mut portal, request(8, None, vec![]));
    let done = update_msg(&mut portal, Msg::Cancel).unwrap();
    assert_eq!(done.reply.unwrap().response, PortalResponse::Cancelled);
    assert_eq!(done.commands, vec![SurfaceCommand::DestroyLayerSurface]);
}

#[test]
fn surface_follows_the_modal_flag() {
    let modal = request(1, Some(true), vec![]);
    assert_eq!(modal.get_surface(), SurfaceCommand::GetWindow);
    assert_eq!(modal.destroy_surface(), SurfaceCommand::CloseWindow);
    assert!(modal.is_modal());
    for flag in [Some(false), None] {
        let layered = request(1, flag, vec![]);
        assert_eq!(layered.get_surface(), SurfaceCommand::GetLayerSurface);
        assert_eq!(layered.destroy_surface(), SurfaceCommand::DestroyLayerSurface);
        assert!(!layered.is_modal());
    }
}

#[test]
fn closed_channel_counts_as_no_answer() {
    let none: Option<PortalResponse<AccessDialogResult>> = None;
    assert_eq!(PortalResponse::from_received(none), PortalResponse::Other);
    assert_eq!(
        PortalResponse::from_received(Some(PortalResponse::<AccessDialogResult>::Cancelled)),
        PortalResponse::Cancelled
    );
    let result = AccessDialogResult { choices: vec![pair("fmt", "b")] };
    assert_eq!(
        PortalResponse::from_received(Some(PortalResponse::Success(result.clone()))),
        PortalResponse::Success(result)
    );
}

#[test]
fn request_keeps_what_it_was_given() {
    let options = AccessDialogOptions {
        modal: Some(true),
        deny_label: Some(text("No")),
        grant_label: None,
        icon: Some(text("camera")),
        choices: Some(vec![format_group()]),
    };
    let args = AccessDialogArgs::new("/h/9", "org.app", "x11:1", "T", "S", "B", options, 9u32);
    assert_eq!(args.handle(), "/h/9");
    assert_eq!(args.app_id(), "org.app");
    assert_eq!(args.parent_window(), "x11:1");
    assert_eq!(args.title(), "T");
    assert_eq!(args.subtitle(), "S");
    assert_eq!(args.body(), "B");
    assert_eq!(args.options().deny_label, Some(text("No")));
    assert_eq!(args.options().icon, Some(text("camera")));
    assert_eq!(args.choice_labels(), &vec![vec![text("A"), text("B")]]);
    assert_eq!(*args.tx(), 9);
}

#[test]
fn outcome_that_comes_back_means_unreachable() {
    let (tx, rx) = tokio::sync::mpsc::channel::<PortalResponse<AccessDialogResult>>(1);
    drop(rx);
    let unsent = tx.try_send(PortalResponse::Cancelled).err().map(|e| e.into_inner());
    assert_eq!(PortalResponse::delivery(unsent), Err(AccessError::ReplyUnreachable));
    let (tx, mut rx) = tokio::sync::mpsc::channel::<PortalResponse<AccessDialogResult>>(1);
    let unsent = tx.try_send(PortalResponse::Other).err().map(|e| e.into_inner());
    assert_eq!(PortalResponse::delivery(unsent), Ok(()));
    assert_eq!(rx.try_recv().unwrap(), PortalResponse::Other);
}
