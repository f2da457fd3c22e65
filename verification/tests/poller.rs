use scroll_status::poll::{Observation, Poller};
use scroll_status::scroll::{PollResult, ScrollState};

#[test]
fn metadata_changes_then_repeats() {
    let mut p = Poller::new();
    let r1 = p.on_observation(Observation::Metadata("Song".to_string()));
    assert!(matches!(r1, PollResult::Changed(t) if t == "Song"));
    let r2 = p.on_observation(Observation::Metadata("Song".to_string()));
    assert!(matches!(r2, PollResult::Unchanged));
}

#[test]
fn provider_failure_is_unavailable_and_keeps_text() {
    let mut p = Poller::new();
    let mut st = ScrollState::new();
    let r1 = p.on_observation(Observation::Metadata("Song".to_string()));
    st.on_poll_result(r1);
    assert_eq!(st.buffer, "Song");
    let r2 = p.on_observation(Observation::ProviderFailed);
    assert!(matches!(r2, PollResult::Unavailable));
    st.on_poll_result(r2);
    assert_eq!(st.buffer, "Song");
    assert_eq!(st.tick(), "Song");
}

#[test]
fn inactive_clears_once_then_stays_quiet() {
    let mut p = Poller::new();
    let mut st = ScrollState::new();
    let r1 = p.on_observation(Observation::Metadata("Song".to_string()));
    st.on_poll_result(r1);
    assert_eq!(st.buffer, "Song");
    // active -> inactive: exactly one Changed to the empty text
    let r2 = p.on_observation(Observation::Inactive);
    assert!(matches!(&r2, PollResult::Changed(t) if t.is_empty()));
    st.on_poll_result(r2);
    assert_eq!(st.buffer, "");
    // while it stays inactive: Unchanged, and the buffer stays empty
    for _ in 0..3 {
        let r = p.on_observation(Observation::Inactive);
        assert!(matches!(r, PollResult::Unchanged));
        st.on_poll_result(r);
        assert_eq!(st.tick(), "");
        assert_eq!(st.buffer, "");
    }
    // until an active result arrives again
    let r3 = p.on_observation(Observation::Metadata("Next".to_string()));
    assert!(matches!(&r3, PollResult::Changed(t) if t == "Next"));
    st.on_poll_result(r3);
    assert_eq!(st.buffer, "Next");
}

#[test]
fn inactive_at_start_reports_unchanged() {
    let mut p = Poller::new();
    let r = p.on_observation(Observation::Inactive);
    assert!(matches!(r, PollResult::Unchanged));
}

#[test]
fn trailing_newline_is_stripped() {
    let mut p = Poller::new();
    let r1 = p.on_observation(Observation::Metadata("Song\n".to_string()));
    assert!(matches!(r1, PollResult::Changed(t) if t == "Song"));
    // after stripping, the same text again is a repeat
    let r2 = p.on_observation(Observation::Metadata("Song".to_string()));
    assert!(matches!(r2, PollResult::Unchanged));
}

#[test]
fn only_one_trailing_newline_is_stripped() {
    let mut p = Poller::new();
    let r = p.on_observation(Observation::Metadata("Song\n\n".to_string()));
    assert!(matches!(r, PollResult::Changed(t) if t == "Song\n"));
}

#[test]
fn empty_metadata_after_text_is_a_change() {
    let mut p = Poller::new();
    let r1 = p.on_observation(Observation::Metadata("Song".to_string()));
    assert!(matches!(r1, PollResult::Changed(t) if t == "Song"));
    let r2 = p.on_observation(Observation::Metadata("".to_string()));
    assert!(matches!(r2, PollResult::Changed(t) if t.is_empty()));
}

#[test]
fn failure_does_not_disturb_dedup() {
    let mut p = Poller::new();
    let r1 = p.on_observation(Observation::Metadata("Song".to_string()));
    assert!(matches!(r1, PollResult::Changed(_)));
    let r2 = p.on_observation(Observation::ProviderFailed);
    assert!(matches!(r2, PollResult::Unavailable));
    let r3 = p.on_observation(Observation::Metadata("Song".to_string()));
    assert!(matches!(r3, PollResult::Unchanged));
}
