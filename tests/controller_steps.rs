use flipdot::frame::Address;
use flipdot::message::{Message, Offset, Operation, State};
use flipdot::page::PageFlipStyle;
use flipdot::serial::{delay_after_receive, delay_after_send, response_expected};
use flipdot::sign::{
    attempt_steps, reset_steps, chunk_messages, data_outcome, flip_style_of, poll_step, reset_plan, verify_response, DataOutcome, PollStep,
    ResetPlan, SignError,
};
use flipdot::frame::Data;
use flipdot::message::ChunkCount;

fn report(a: u16, s: State) -> Option<Message> {
    Some(Message::ReportState(Address(a), s))
}

#[test]
fn reset_plans() {
    assert_eq!(ResetPlan::AlreadyUnconfigured, reset_plan(Address(3), &report(3, State::Unconfigured)));
    assert_eq!(ResetPlan::FinishReset, reset_plan(Address(3), &report(3, State::ReadyToReset)));
    assert_eq!(ResetPlan::FullReset, reset_plan(Address(3), &report(3, State::PageShown)));
    assert_eq!(ResetPlan::FullReset, reset_plan(Address(3), &report(4, State::Unconfigured)));
    assert_eq!(ResetPlan::FullReset, reset_plan(Address(3), &None));
}

#[test]
fn data_outcomes_retry_twice_then_give_up() {
    let failed = report(3, State::ConfigFailed);
    let ok = report(3, State::ConfigReceived);
    let a = Address(3);
    assert_eq!(DataOutcome::Retry, data_outcome(a, State::ConfigReceived, State::ConfigFailed, 1, &failed));
    assert_eq!(DataOutcome::Retry, data_outcome(a, State::ConfigReceived, State::ConfigFailed, 2, &failed));
    assert_eq!(DataOutcome::Unexpected, data_outcome(a, State::ConfigReceived, State::ConfigFailed, 3, &failed));
    assert_eq!(DataOutcome::Done, data_outcome(a, State::ConfigReceived, State::ConfigFailed, 3, &ok));
    assert_eq!(DataOutcome::Unexpected, data_outcome(a, State::ConfigReceived, State::ConfigFailed, 1, &None));
}

#[test]
fn poll_steps() {
    let a = Address(3);
    let step = |r: Option<Message>| poll_step(a, State::PageShown, State::PageLoaded, &r);
    assert_eq!(PollStep::Finished, step(report(3, State::PageShown)));
    assert_eq!(PollStep::Finished, step(report(3, State::ShowingPages)));
    assert_eq!(PollStep::Request, step(report(3, State::PageLoaded)));
    assert_eq!(PollStep::Wait, step(report(3, State::PageShowInProgress)));
    assert_eq!(PollStep::Wait, step(report(3, State::PageLoadInProgress)));
    assert_eq!(PollStep::Unexpected, step(report(3, State::Unconfigured)));
    assert_eq!(PollStep::Unexpected, step(None));
}

#[test]
fn flip_styles() {
    assert_eq!(PageFlipStyle::Automatic, flip_style_of(Address(3), &report(3, State::ShowingPages)));
    assert_eq!(PageFlipStyle::Manual, flip_style_of(Address(3), &report(3, State::PageLoaded)));
    assert_eq!(PageFlipStyle::Manual, flip_style_of(Address(3), &report(4, State::ShowingPages)));
}

#[test]
fn responses_verified() {
    let expected = Some(Message::AckOperation(Address(3), Operation::StartReset));
    assert!(verify_response(&expected, &expected.clone()).is_ok());
    let error = verify_response(&expected, &None).unwrap_err();
    assert!(matches!(&error, SignError::UnexpectedResponse { expected, actual }
        if expected == "[Addr 0003] --> AckOperation [StartReset]" && actual == "None"));
    assert!(verify_response(&None, &None).is_ok());
}

#[test]
fn chunks_restart_offsets_for_each_item() {
    let items = vec![(0u8..40).collect::<Vec<u8>>(), vec![9u8; 16]];
    let chunks = chunk_messages(&items);
    assert_eq!(4, chunks.len());
    assert_eq!(Message::SendData(Offset(0), Data::try_new((0u8..16).collect()).unwrap()), chunks[0]);
    assert_eq!(Message::SendData(Offset(16), Data::try_new((16u8..32).collect()).unwrap()), chunks[1]);
    assert_eq!(Message::SendData(Offset(32), Data::try_new((32u8..40).collect()).unwrap()), chunks[2]);
    assert_eq!(Message::SendData(Offset(0), Data::try_new(vec![9u8; 16]).unwrap()), chunks[3]);
    assert!(chunk_messages(&vec![vec![]]).is_empty());
}

#[test]
fn transport_pacing() {
    assert!(response_expected(&Message::Hello(Address(1))));
    assert!(response_expected(&Message::RequestOperation(Address(1), Operation::ReceivePixels)));
    assert!(!response_expected(&Message::Goodbye(Address(1))));
    assert!(!response_expected(&Message::DataChunksSent(ChunkCount(2))));
    let send = Message::SendData(Offset(0), Data::try_new(vec![1, 2]).unwrap());
    assert_eq!(Some(30), delay_after_send(&send));
    assert_eq!(None, delay_after_send(&Message::Hello(Address(1))));
    assert_eq!(Some(100), delay_after_receive(&Message::ReportState(Address(1), State::PageLoadInProgress)));
    assert_eq!(None, delay_after_receive(&Message::ReportState(Address(1), State::PageLoaded)));
}

#[test]
fn reset_step_lists() {
    assert!(reset_steps(Address(3), ResetPlan::AlreadyUnconfigured).is_empty());
    let steps = reset_steps(Address(3), ResetPlan::FinishReset);
    assert_eq!(2, steps.len());
    assert_eq!(Message::RequestOperation(Address(3), Operation::FinishReset), steps[0].message);
    assert_eq!(Some(Message::AckOperation(Address(3), Operation::FinishReset)), steps[0].expected);
    assert_eq!(Message::Hello(Address(3)), steps[1].message);
    assert_eq!(report(3, State::Unconfigured), steps[1].expected);
    let steps = reset_steps(Address(3), ResetPlan::FullReset);
    let sent: Vec<Message> = steps.iter().map(|s| s.message.clone()).collect();
    assert_eq!(
        vec![
            Message::RequestOperation(Address(3), Operation::StartReset),
            Message::Hello(Address(3)),
            Message::RequestOperation(Address(3), Operation::FinishReset),
            Message::Hello(Address(3)),
        ],
        sent
    );
    assert_eq!(report(3, State::ReadyToReset), steps[1].expected);
}

#[test]
fn attempt_step_list() {
    let chunks = chunk_messages(&vec![vec![1u8; 20]]);
    let steps = attempt_steps(Address(5), Operation::ReceivePixels, &chunks);
    assert_eq!(4, steps.len());
    assert_eq!(Message::RequestOperation(Address(5), Operation::ReceivePixels), steps[0].message);
    assert_eq!(Some(Message::AckOperation(Address(5), Operation::ReceivePixels)), steps[0].expected);
    assert_eq!(chunks[0], steps[1].message);
    assert_eq!(None, steps[1].expected);
    assert_eq!(chunks[1], steps[2].message);
    assert_eq!(Message::DataChunksSent(ChunkCount(2)), steps[3].message);
    assert_eq!(None, steps[3].expected);
}
