//! The source poller's decision logic.
//!
//! The outside work — checking that the subject process is alive and asking
//! the provider for metadata — is done by the caller, which reports what it
//! saw as a plain [`Observation`]. The poller classifies each observation
//! into the [`PollResult`] handed to the scroll engine: it normalizes the
//! provider's text, deduplicates repeated answers, reports transient
//! provider failures as `Unavailable`, and reports the inactive subject as a
//! single `Changed` to the canonical empty text.

use vstd::prelude::*;

use crate::scroll::PollResult;

verus! {

/// One observation of the subject process and its provider, as plain values.
pub enum Observation {
    /// The subject process is not active (or reports itself stopped).
    Inactive,
    /// The subject is active, but the provider failed to answer. This is a
    /// known transient failure mode and must not blank the display.
    ProviderFailed,
    /// The subject is active and the provider answered with this raw text.
    Metadata(String),
}

/// Provider text after normalization: a single trailing line terminator is
/// stripped.
pub open spec fn normalized(s: Seq<char>) -> Seq<char> {
    if s.len() > 0 && s.last() == '\n' {
        s.drop_last()
    } else {
        s
    }
}

/// Strip a single trailing line terminator from the provider's raw text.
pub fn strip_trailing_newline(s: &str) -> (r: String)
    ensures
        r@ == normalized(s@),
{
    let len = s.unicode_len();
    if len > 0 && s.get_char(len - 1) == '\n' {
        let head = s.substring_char(0, len - 1);
        proof {
            assert(head@ =~= s@.drop_last());
        }
        head.to_owned()
    } else {
        s.to_owned()
    }
}

/// The poller's memory between observations.
pub struct Poller {
    /// The last normalized text seen from the provider; the canonical empty
    /// text while the subject is known inactive.
    pub last_text: String,
    /// Whether the subject process was active at the last observation.
    pub active: bool,
}

impl Poller {
    /// A fresh poller: no text seen yet, subject not known to be active.
    pub fn new() -> (p: Poller)
        ensures
            p.last_text@ == Seq::<char>::empty(),
            p.active == false,
    {
        Poller { last_text: String::new(), active: false }
    }

    /// Classify one observation. An inactive subject yields `Changed` to the
    /// empty text exactly once, on the active-to-inactive transition, and
    /// `Unchanged` afterward; a provider failure yields `Unavailable` and
    /// leaves the remembered text alone; fresh metadata is normalized and
    /// compared with the last text seen, yielding `Unchanged` when equal and
    /// `Changed` with the normalized text when not.
    pub fn on_observation(&mut self, obs: Observation) -> (r: PollResult)
        ensures
            (match obs {
                Observation::Inactive => {
                    if old(self).active {
                        &&& final(self).active == false
                        &&& final(self).last_text@ == Seq::<char>::empty()
                        &&& r matches PollResult::Changed(t) && t@ == Seq::<char>::empty()
                    } else {
                        &&& *final(self) == *old(self)
                        &&& r is Unchanged
                    }
                },
                Observation::ProviderFailed => {
                    &&& final(self).active == true
                    &&& final(self).last_text == old(self).last_text
                    &&& r is Unavailable
                },
                Observation::Metadata(raw) => {
                    if normalized(raw@) == old(self).last_text@ {
                        &&& final(self).active == true
                        &&& final(self).last_text == old(self).last_text
                        &&& r is Unchanged
                    } else {
                        &&& final(self).active == true
                        &&& final(self).last_text@ == normalized(raw@)
                        &&& r matches PollResult::Changed(t) && t@ == normalized(raw@)
                    }
                },
            }),
    {
        match obs {
            Observation::Inactive => {
                if self.active {
                    self.active = false;
                    self.last_text = String::new();
                    PollResult::Changed(String::new())
                } else {
                    PollResult::Unchanged
                }
            },
            Observation::ProviderFailed => {
                self.active = true;
                PollResult::Unavailable
            },
            Observation::Metadata(raw) => {
                self.active = true;
                let text = strip_trailing_newline(raw.as_str());
                if text == self.last_text {
                    PollResult::Unchanged
                } else {
                    self.last_text = text.clone();
                    PollResult::Changed(text)
                }
            },
        }
    }
}

} // verus!
