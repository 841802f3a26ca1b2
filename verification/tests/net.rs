use gloo::net::http::combine_query;
use gloo::net::eventsource::{forwards_error, EventSourceError, State as EventSourceState};
use gloo::net::http::is_success_status;
use gloo::net::method::{Method, MethodError};
use gloo::net::websocket::{
    is_strictly_sorted, read_error_outcome, CloseEvent, Message, ReadOutcome, State, WebSocket,
    WebSocketError,
};

#[test]
fn test_order() {
    let expected_order = vec![
        State::Connecting,
        State::Open,
        State::Closing,
        State::Closed,
    ];

    assert!(expected_order.windows(2).all(|w| w[0] < w[1]));

    // Check that the u16 conversion is also sorted
    let order: Vec<u16> = expected_order.iter().map(|s| s.ready_state()).collect();
    assert!(is_strictly_sorted(&order));
}

#[test]
fn strictly_sorted_rejects_repeats() {
    assert!(is_strictly_sorted(&[]));
    assert!(is_strictly_sorted(&[5]));
    assert!(!is_strictly_sorted(&[1, 1]));
    assert!(!is_strictly_sorted(&[2, 1]));
}

#[test]
fn websocket_states_roundtrip() {
    for n in 0..4u16 {
        assert_eq!(State::from_ready_state(n).ready_state(), n);
    }
}

#[test]
fn eventsource_state_names() {
    assert_eq!(EventSourceState::Connecting.as_str(), "connecting");
    assert_eq!(EventSourceState::Open.as_str(), "open");
    assert_eq!(EventSourceState::Closed.as_str(), "closed");
    assert_eq!(EventSourceState::from_ready_state(1), EventSourceState::Open);
    assert_eq!(EventSourceState::Closed.ready_state(), 2);
    assert_eq!(
        EventSourceError::ConnectionError.message(),
        "EventSource connection failed"
    );
}

#[test]
fn methods_from_bytes_and_names() {
    assert_eq!(Method::from_bytes(b"GET"), Some(Method::Get));
    assert_eq!(Method::from_bytes(b"PATCH"), Some(Method::Patch));
    assert_eq!(Method::from_bytes(b"get"), None);
    assert_eq!(Method::from_bytes(b""), None);
    for m in [
        Method::Options,
        Method::Get,
        Method::Post,
        Method::Put,
        Method::Delete,
        Method::Head,
        Method::Patch,
    ] {
        assert_eq!(Method::from_bytes(m.as_str().as_bytes()), Some(m));
        assert_eq!(m.as_str().parse::<Method>(), Ok(m));
    }
    assert_eq!("TRACE".parse::<Method>(), Err(MethodError::InvalidMethod));
    assert_eq!(MethodError::InvalidMethod.message(), "Invalid method");
}

#[test]
fn success_status_range() {
    assert!(is_success_status(200));
    assert!(is_success_status(299));
    assert!(!is_success_status(199));
    assert!(!is_success_status(300));
}

#[test]
fn read_keeps_bytes_that_do_not_fit() {
    let mut ws = WebSocket::new();
    assert!(!ws.has_pending_bytes());
    let mut buf = [0u8; 5];
    let n = ws.read_from(b"1234567890".to_vec(), &mut buf);
    assert_eq!(n, 5);
    assert_eq!(&buf, b"12345");
    assert!(ws.has_pending_bytes());
    let rest = ws.take_pending_bytes().unwrap();
    assert!(!ws.has_pending_bytes());
    let n = ws.read_from(rest, &mut buf);
    assert_eq!(n, 5);
    assert_eq!(&buf, b"67890");
    assert!(!ws.has_pending_bytes());
}

#[test]
fn messages_become_bytes() {
    assert_eq!(Message::Text("hé".to_string()).into_bytes(), "hé".as_bytes().to_vec());
    assert_eq!(Message::Bytes(vec![1, 2]).into_bytes(), vec![1, 2]);
}

#[test]
fn clean_close_ends_a_read() {
    let clean = WebSocketError::ConnectionClose(CloseEvent {
        code: 1000,
        reason: String::new(),
        was_clean: true,
    });
    assert_eq!(read_error_outcome(&clean), ReadOutcome::Done(0));
    assert_eq!(
        read_error_outcome(&WebSocketError::ConnectionError),
        ReadOutcome::Failed
    );
}

#[test]
fn request_query_is_combined_with_url_search() {
    assert_eq!(combine_query("", "a=1"), "a=1");
    assert_eq!(combine_query("?x=2", "a=1"), "?x=2&a=1");
}

#[test]
fn read_message_handles_each_stream_item() {
    let mut ws = WebSocket::new();
    let mut buf = [0u8; 3];
    assert_eq!(ws.read_message(None, &mut buf).unwrap(), 0);
    let clean = WebSocketError::ConnectionClose(CloseEvent {
        code: 1000,
        reason: String::new(),
        was_clean: true,
    });
    assert_eq!(ws.read_message(Some(Err(clean)), &mut buf).unwrap(), 0);
    let unclean = WebSocketError::ConnectionClose(CloseEvent {
        code: 1006,
        reason: String::new(),
        was_clean: false,
    });
    assert!(matches!(
        ws.read_message(Some(Err(unclean)), &mut buf),
        Err(WebSocketError::ConnectionClose(CloseEvent { code: 1006, .. }))
    ));
    assert!(matches!(
        ws.read_message(Some(Err(WebSocketError::ConnectionError)), &mut buf),
        Err(WebSocketError::ConnectionError)
    ));
    assert!(!ws.has_pending_bytes());
    let n = ws.read_message(Some(Ok(Message::Text("hello".to_string()))), &mut buf).unwrap();
    assert_eq!(n, 3);
    assert_eq!(&buf, b"hel");
    assert_eq!(ws.take_pending_bytes(), Some(b"lo".to_vec()));
}

#[test]
fn errors_while_reconnecting_are_not_passed_on() {
    assert!(!forwards_error(Some(0)));
    assert!(forwards_error(Some(1)));
    assert!(forwards_error(Some(2)));
    assert!(forwards_error(None));
}

#[test]
fn parsing_a_method_agrees_with_its_bytes() {
    for s in ["CONNECT", "post", "PATCH", "GET", "", "DELETE "] {
        let parsed = s.parse::<Method>();
        match Method::from_bytes(s.as_bytes()) {
            Some(m) => assert_eq!(parsed, Ok(m)),
            None => assert_eq!(parsed, Err(MethodError::InvalidMethod)),
        }
    }
    assert_eq!("PATCH".parse::<Method>(), Ok(Method::Patch));
    assert_eq!("post".parse::<Method>(), Err(MethodError::InvalidMethod));
}

#[test]
fn states_convert_to_ready_state_numbers() {
    assert_eq!(u16::from(State::Connecting), 0);
    assert_eq!(u16::from(State::Closing), 2);
    let closed: u16 = State::Closed.into();
    assert_eq!(closed, 3);
    assert_eq!(u16::from(EventSourceState::Open), 1);
    assert_eq!(u16::from(EventSourceState::Closed), 2);
}
