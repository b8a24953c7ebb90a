use lifelogging::audio::processor::{
    block_event, negotiation_event, step, SessionAction, SessionEvent, SessionState,
    NEGOTIATION_BACKOFF_SECS, RESTART_BACKOFF_SECS,
};
use lifelogging::config::{
    find_supported_config, find_working_device_and_config, BufferSize, DefaultConfig,
    DeviceProbe, Negotiation, StreamConfig, SupportedConfigRange,
};

fn config(channels: u16, sample_rate: u32) -> StreamConfig {
    StreamConfig { channels, sample_rate, buffer_size: BufferSize::Default }
}

fn range(channels: u16, min: u32, max: u32) -> SupportedConfigRange {
    SupportedConfigRange { channels, min_sample_rate: min, max_sample_rate: max }
}

fn probe(
    name: Option<&str>,
    supported: Option<Vec<SupportedConfigRange>>,
    default_rate: Option<u32>,
) -> DeviceProbe {
    DeviceProbe {
        name: name.map(|n| n.to_string()),
        supported,
        default_config: default_rate.map(|sample_rate| DefaultConfig { channels: 2, sample_rate }),
    }
}

#[test]
fn no_devices_fails_and_retries_every_five_seconds() {
    let mut state = SessionState::Idle;
    let (next, action) = step(state, SessionEvent::Started, 44100);
    assert_eq!(next, SessionState::Negotiating);
    assert_eq!(action, SessionAction::Negotiate);
    state = next;
    for _ in 0..1000 {
        let outcome = find_working_device_and_config(&[]);
        assert_eq!(outcome, Negotiation::NoDevice);
        let event = negotiation_event(outcome);
        assert_eq!(event, SessionEvent::NegotiationFailed);
        let (next, action) = step(state, event, 44100);
        assert_eq!(next, SessionState::Failed { backoff_secs: 5 });
        assert_eq!(action, SessionAction::Backoff { seconds: 5 });
        let (next, action) = step(next, SessionEvent::BackoffElapsed, 44100);
        assert_eq!(next, SessionState::Negotiating);
        assert_eq!(action, SessionAction::Negotiate);
        state = next;
    }
}

#[test]
fn backoff_is_five_seconds_or_one() {
    assert_eq!(NEGOTIATION_BACKOFF_SECS, 5);
    assert_eq!(RESTART_BACKOFF_SECS, 1);
    let streaming = SessionState::Streaming { sample_rate: 48000 };
    assert_eq!(
        step(streaming, SessionEvent::StreamEnded, 48000),
        (SessionState::Failed { backoff_secs: 1 }, SessionAction::Backoff { seconds: 1 })
    );
    assert_eq!(
        step(streaming, SessionEvent::PlayFailed, 48000),
        (SessionState::Failed { backoff_secs: 5 }, SessionAction::Backoff { seconds: 5 })
    );
    assert_eq!(
        step(SessionState::Failed { backoff_secs: 1 }, SessionEvent::BackoffElapsed, 48000),
        (SessionState::Negotiating, SessionAction::Negotiate)
    );
}

#[test]
fn rate_is_updated_before_streaming() {
    let found = SessionEvent::Negotiated { sample_rate: 48000 };
    assert_eq!(
        step(SessionState::Negotiating, found, 44100),
        (
            SessionState::Streaming { sample_rate: 48000 },
            SessionAction::Stream { sample_rate: 48000, update_rate: true }
        )
    );
    assert_eq!(
        step(SessionState::Negotiating, found, 48000),
        (
            SessionState::Streaming { sample_rate: 48000 },
            SessionAction::Stream { sample_rate: 48000, update_rate: false }
        )
    );
}

#[test]
fn events_out_of_place_are_ignored() {
    let streaming = SessionState::Streaming { sample_rate: 8000 };
    assert_eq!(step(SessionState::Idle, SessionEvent::StreamEnded, 1), (SessionState::Idle, SessionAction::Ignore));
    assert_eq!(step(streaming, SessionEvent::Started, 1), (streaming, SessionAction::Ignore));
    assert_eq!(step(streaming, SessionEvent::BackoffElapsed, 1), (streaming, SessionAction::Ignore));
    assert_eq!(
        step(SessionState::Negotiating, SessionEvent::StreamEnded, 1),
        (SessionState::Negotiating, SessionAction::Ignore)
    );
    let failed = SessionState::Failed { backoff_secs: 5 };
    assert_eq!(step(failed, SessionEvent::NegotiationFailed, 1), (failed, SessionAction::Ignore));
}

#[test]
fn block_that_cannot_be_handed_on_ends_the_stream() {
    assert_eq!(block_event(true), None);
    assert_eq!(block_event(false), Some(SessionEvent::StreamEnded));
}

#[test]
fn config_at_the_default_rate_is_preferred() {
    let device = probe(
        Some("mic"),
        Some(vec![range(1, 8000, 16000), range(1, 8000, 48000), range(2, 8000, 48000)]),
        Some(48000),
    );
    assert_eq!(
        find_supported_config(&device),
        Some(config(1, 48000))
    );
}

#[test]
fn default_config_is_the_fallback() {
    let device = probe(Some("mic"), Some(vec![range(1, 8000, 16000)]), Some(44100));
    assert_eq!(
        find_supported_config(&device),
        Some(config(2, 44100))
    );
    let bare = probe(Some("mic"), Some(vec![]), Some(44100));
    assert_eq!(find_supported_config(&bare), Some(config(2, 44100)));
}

#[test]
fn device_without_default_matches_rate_zero_only() {
    let device = probe(Some("mic"), Some(vec![range(1, 8000, 16000)]), None);
    assert_eq!(find_supported_config(&device), None);
    let odd = probe(Some("mic"), Some(vec![range(1, 0, 16000), range(3, 0, 0)]), None);
    assert_eq!(find_supported_config(&odd), Some(config(3, 0)));
    let unreadable = probe(Some("mic"), None, Some(44100));
    assert_eq!(find_supported_config(&unreadable), None);
}

#[test]
fn first_usable_device_is_chosen() {
    let devices = vec![
        probe(Some("broken"), None, Some(44100)),
        probe(Some("bare"), Some(vec![range(1, 1, 2)]), None),
        probe(Some("good"), Some(vec![range(1, 8000, 48000)]), Some(48000)),
        probe(Some("better"), Some(vec![range(2, 8000, 96000)]), Some(96000)),
    ];
    let outcome = find_working_device_and_config(&devices);
    assert_eq!(
        outcome,
        Negotiation::Found { device: 2, config: config(1, 48000) }
    );
    assert_eq!(negotiation_event(outcome), SessionEvent::Negotiated { sample_rate: 48000 });
}

#[test]
fn unreadable_name_ends_the_search() {
    let devices = vec![
        probe(Some("broken"), None, Some(44100)),
        probe(None, Some(vec![range(1, 8000, 48000)]), Some(48000)),
        probe(Some("good"), Some(vec![range(1, 8000, 48000)]), Some(48000)),
    ];
    let outcome = find_working_device_and_config(&devices);
    assert_eq!(outcome, Negotiation::NameUnreadable { device: 1 });
    assert_eq!(negotiation_event(outcome), SessionEvent::NegotiationFailed);
    let none = vec![probe(Some("a"), None, None), probe(Some("b"), Some(vec![]), None)];
    assert_eq!(find_working_device_and_config(&none), Negotiation::NoDevice);
}
