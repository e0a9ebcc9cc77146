use chattyrs::commands::error::Error;
use chattyrs::commands::weigh_in;
use chattyrs::delivery::{
    split_chunks, split_segments, DeliveryAction, DeliveryController, DeliveryState, FALLBACK_TEXT,
};
use chattyrs::llm;
use chattyrs::llm::model::{LlmMessage, UserMessage};
use chattyrs::handler::{archive_tenant, command_kind, CommandKind};

fn followup(text: &str) -> DeliveryAction {
    DeliveryAction::SendFollowup(text.to_string())
}

fn deferred_controller() -> DeliveryController {
    let mut c = DeliveryController::new();
    assert_eq!(c.state, DeliveryState::Received);
    assert_eq!(c.begin(), DeliveryAction::SendDefer);
    assert_eq!(c.state, DeliveryState::Deferred);
    c.defer_done(true);
    assert_eq!(c.state, DeliveryState::Processing);
    c
}

#[test]
fn trailing_blank_segment_sends_no_empty_followup() {
    assert_eq!(split_chunks("para one\n\npara two\n\n"), vec!["para one", "para two"]);
    let mut c = deferred_controller();
    assert_eq!(c.finish(Ok("para one\n\npara two\n\n".to_string())), followup("para one"));
    assert_eq!(c.followup_done(true), followup("para two"));
    assert_eq!(c.followup_done(true), DeliveryAction::Idle);
    assert_eq!(c.state, DeliveryState::Delivered);
    assert_eq!(c.sent, 2);
}

#[test]
fn empty_completion_is_delivered_as_the_fallback_only() {
    let chat = weigh_in::ChatStage {
        messages: vec![LlmMessage::UserMessage(UserMessage { content: "x".to_string() })],
    };
    let outcome = chat.with_completion(Ok(String::new()));
    assert_eq!(
        outcome,
        Err(weigh_in::Error::LlmError(llm::error::Error::EmptyResponseError))
    );
    let mut c = deferred_controller();
    let first = c.finish(outcome.map_err(Error::from));
    assert_eq!(first, followup(FALLBACK_TEXT));
    assert_eq!(FALLBACK_TEXT, "command failed, please try again later");
    assert_eq!(c.outbox, vec![FALLBACK_TEXT.to_string()]);
    assert_eq!(c.followup_done(true), DeliveryAction::Idle);
    assert_eq!(c.state, DeliveryState::Failed);
}

#[test]
fn failed_followup_aborts_and_deletes_the_placeholder() {
    let mut c = deferred_controller();
    assert_eq!(c.finish(Ok("a\n\nb\n\nc".to_string())), followup("a"));
    assert_eq!(c.followup_done(false), DeliveryAction::DeleteResponse);
    assert_eq!(c.state, DeliveryState::Failed);
    assert_eq!(c.followup_done(true), DeliveryAction::Idle);
    assert_eq!(c.sent, 0);
}

#[test]
fn failed_defer_does_not_stop_the_work() {
    let mut c = DeliveryController::new();
    assert_eq!(c.begin(), DeliveryAction::SendDefer);
    c.defer_done(false);
    assert_eq!(c.state, DeliveryState::Processing);
    assert_eq!(c.finish(Ok("done".to_string())), followup("done"));
}

#[test]
fn events_out_of_turn_change_nothing() {
    let mut c = DeliveryController::new();
    assert_eq!(c.finish(Ok("x".to_string())), DeliveryAction::Idle);
    assert_eq!(c.followup_done(true), DeliveryAction::Idle);
    c.defer_done(true);
    assert_eq!(c.state, DeliveryState::Received);
    c.begin();
    assert_eq!(c.begin(), DeliveryAction::Idle);
}

#[test]
fn blank_reply_is_delivered_with_nothing_to_send() {
    let mut c = deferred_controller();
    assert_eq!(c.finish(Ok("\n\n".to_string())), DeliveryAction::Idle);
    assert_eq!(c.state, DeliveryState::Delivered);
}

#[test]
fn split_keeps_paragraphs_and_their_order() {
    assert_eq!(split_segments("a\n\nb"), vec!["a", "b"]);
    assert_eq!(split_segments(""), vec![""]);
    assert_eq!(split_segments("a\n\n\n\nb"), vec!["a", "", "b"]);
    assert_eq!(split_segments("a\n\n\nb"), vec!["a", "\nb"]);
    assert_eq!(split_chunks("a\n\n\n\nb"), vec!["a", "b"]);
    assert_eq!(split_chunks(""), Vec::<String>::new());
    assert_eq!(split_chunks("one line\nnext line"), vec!["one line\nnext line"]);
    assert_eq!(split_chunks("\n\nx\n\n\n\ny"), vec!["x", "y"]);
    assert_eq!(split_chunks("é\n\nü"), vec!["é", "ü"]);
    let text = "first\n\nsecond\nstill second\n\nthird";
    assert_eq!(split_chunks(text).join("\n\n"), text);
}

#[test]
fn commands_are_known_by_name() {
    assert_eq!(command_kind("ask"), Some(CommandKind::Ask));
    assert_eq!(command_kind("weigh-in"), Some(CommandKind::WeighIn));
    assert_eq!(command_kind("weigh"), None);
    assert_eq!(command_kind(""), None);
}

#[test]
fn only_tenant_messages_of_people_are_archived() {
    assert_eq!(archive_tenant(false, Some(3)), Some(3));
    assert_eq!(archive_tenant(true, Some(3)), None);
    assert_eq!(archive_tenant(false, None), None);
}
