use rtalk::client::{respond, show, Action, Fault, Occurrence};
use rtalk::event::Event;

#[test]
fn a_connected_client_asks_to_join_under_its_name() {
    assert_eq!(
        respond(Occurrence::Connected("alice".to_string())),
        Action::Send(Event::RequestJoin("alice".to_string()))
    );
}

#[test]
fn a_typed_line_is_sent_as_it_is() {
    assert_eq!(
        respond(Occurrence::Typed("hi there".to_string())),
        Action::Send(Event::MessageSend("hi there".to_string()))
    );
    assert_eq!(
        respond(Occurrence::Typed(String::new())),
        Action::Send(Event::MessageSend(String::new()))
    );
}

#[test]
fn the_end_of_input_takes_leave() {
    assert_eq!(respond(Occurrence::InputEnded), Action::SendAndQuit(Event::Leave()));
}

#[test]
fn announcements_are_shown_in_their_three_forms() {
    assert_eq!(
        respond(Occurrence::Heard(Event::Joined("bob".to_string()))),
        Action::Show("JOINED:> bob".to_string())
    );
    assert_eq!(
        respond(Occurrence::Heard(Event::Left("bob".to_string()))),
        Action::Show("LEFT:> bob".to_string())
    );
    assert_eq!(
        respond(Occurrence::Heard(Event::MessageReceived("bob".to_string(), "hi".to_string()))),
        Action::Show("bob:> hi".to_string())
    );
}

#[test]
fn show_gives_no_line_for_what_only_a_client_sends() {
    assert_eq!(show(&Event::Joined("é".to_string())), Some("JOINED:> é".to_string()));
    assert_eq!(show(&Event::RequestJoin("bob".to_string())), None);
    assert_eq!(show(&Event::Leave()), None);
    assert_eq!(show(&Event::MessageSend("hi".to_string())), None);
}

#[test]
fn a_client_event_from_the_server_is_a_fault() {
    for event in vec![
        Event::RequestJoin("bob".to_string()),
        Event::Leave(),
        Event::MessageSend("hi".to_string()),
    ] {
        assert_eq!(respond(Occurrence::Heard(event)), Action::Fail(Fault::UnexpectedEvent));
    }
}

#[test]
fn a_lost_connection_is_a_fault() {
    assert_eq!(respond(Occurrence::Lost), Action::Fail(Fault::ConnectionLost));
}
