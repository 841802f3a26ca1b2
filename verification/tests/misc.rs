use gloo::file::is_safe_integer;
use gloo::ani_frames::{AniState, Animation, StartAction};
use gloo::events::EventListenerOptions;
use gloo::file::{FileReadError, ReadyState};
use gloo::intl::date_time_format::{Month, Options as DateTimeOptions, Year};
use gloo::intl::number_format::{CurrencySign, Options as NumberOptions, Style};

#[test]
fn animation_indices_and_removal() {
    let mut ani: Animation<(), char> = Animation::paused();
    assert_eq!(ani.state(), AniState::Paused);
    let ix1 = ani.add('a');
    let ix2 = ani.add('b');
    assert_eq!(ix1.inner(), 1);
    assert_eq!(ix2.inner(), 2);
    assert_eq!(ani.remove(ix1), Ok(()));
    assert_eq!(ani.len(), 1);
    assert_eq!(*ani.callback(0), 'b');
    assert_eq!(ani.remove(gloo::ani_frames::AniIndex::new(1)), Err(()));
    let ix3 = ani.add('c');
    assert_eq!(ix3.inner(), 3);
}

#[test]
fn animation_state_transitions() {
    let mut ani: Animation<(), ()> = Animation::paused();
    assert_eq!(ani.start_action(), StartAction::Request);
    assert!(ani.once_requests_frame());
    ani.set_running_once(4);
    assert_eq!(ani.start_action(), StartAction::CancelAndRequest(4));
    assert!(!ani.once_requests_frame());
    ani.set_running(5);
    assert_eq!(ani.start_action(), StartAction::Nothing);
    assert_eq!(ani.pause(), Some(5));
    assert_eq!(ani.state(), AniState::Paused);
    assert_eq!(ani.pause(), None);
    let started: Animation<(), ()> = Animation::new(8);
    assert_eq!(started.state(), AniState::Running(8));
}

#[test]
fn listener_options() {
    let new = EventListenerOptions::new_listener();
    assert!(!new.capture && !new.once && new.passive);
    let once = EventListenerOptions::once_listener();
    assert!(!once.capture && once.once && once.passive);
}

#[test]
fn date_time_options_become_properties() {
    let options = DateTimeOptions {
        year: Some(Year::Numeric),
        month: Some(Month::Long),
        ..Default::default()
    };
    assert_eq!(
        options.js_properties(),
        vec![("year", "numeric"), ("month", "long")]
    );
    assert_eq!(DateTimeOptions::default().js_properties(), vec![]);
    assert_eq!("2-digit".parse::<Month>().map(|m| m.string_rep()), Ok("2-digit"));
    assert!("long".parse::<Year>().is_err());
}

#[test]
fn number_options_become_properties() {
    let options = NumberOptions {
        style: Some(Style::Currency),
        currency_display: None,
        currency_sign: Some(CurrencySign::Accounting),
    };
    assert_eq!(
        options.js_properties(),
        vec![("style", "currency"), ("currencySign", "accounting")]
    );
    assert_eq!("percent".parse::<Style>().map(|s| s.string_rep()), Ok("percent"));
}

#[test]
fn file_reader_states_and_errors() {
    assert_eq!(ReadyState::from_ready_state(2), ReadyState::Done);
    assert!(ReadyState::Done.is_done());
    assert!(!ReadyState::from_ready_state(1).is_done());
    assert_eq!(
        FileReadError::NotFound("x".to_string()).describe(),
        "FileReader cannot find blob: x"
    );
    assert_eq!(FileReadError::AbortedEarly.describe(), "FileReader aborted early");
}

#[test]
fn safe_integer_limit() {
    assert!(is_safe_integer(9007199254740991));
    assert!(!is_safe_integer(9007199254740992));
    assert!(is_safe_integer(0));
}

#[test]
fn read_errors_from_exceptions() {
    assert!(matches!(
        FileReadError::from_exception("NotReadableError", "m".to_string()),
        Some(FileReadError::NotReadable(m)) if m == "m"
    ));
    assert!(FileReadError::from_exception("AbortError", String::new()).is_none());
}
