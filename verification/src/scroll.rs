//! The scroll engine: the display buffer, the scroll cursor, and the cyclic
//! window computed for each tick.
//!
//! The engine owns a [`ScrollState`]. A poll result feeds it through
//! [`ScrollState::on_poll_result`], which resets the buffer and cursor only
//! when genuinely new text arrives; [`ScrollState::tick`] returns the visible
//! window and advances the cursor. All indexing counts grapheme clusters, so
//! a window never splits a user-perceived character.

use vstd::arithmetic::div_mod::{
    lemma_add_mod_noop, lemma_fundamental_div_mod_converse_mod, lemma_mod_bound, lemma_small_mod,
};
use vstd::prelude::*;

use crate::segment::{grapheme_split, graphemes_of, lemma_flatten_len_at_least_count};

verus! {

/// Maximum number of grapheme clusters in one output window.
pub const MAX_WIDTH: usize = 20;

/// What one poll of the provider reported.
///
/// `Unavailable` means the provider could not be reached (a transient
/// failure); `Unchanged` means it answered with the same text as before;
/// `Changed` carries freshly observed text. The distinction matters: a
/// transient failure must never blank the displayed text, while an honest
/// "nothing playing" answer should.
pub enum PollResult {
    Unavailable,
    Unchanged,
    Changed(String),
}

/// The number of grapheme clusters of `s`.
pub open spec fn grapheme_count(s: Seq<char>) -> nat {
    grapheme_split(s).len()
}

/// The `width` grapheme clusters visible from cursor position `cursor`,
/// wrapping cyclically through `gs`.
pub open spec fn window_clusters(gs: Seq<Seq<char>>, cursor: int, width: int) -> Seq<Seq<char>>
    recommends
        gs.len() > 0,
{
    Seq::new(width as nat, |i: int| gs[(cursor + i) % (gs.len() as int)])
}

/// The text of that window: the visible clusters, concatenated.
pub open spec fn window_text(gs: Seq<Seq<char>>, cursor: int, width: int) -> Seq<char> {
    window_clusters(gs, cursor, width).flatten()
}

/// What scrolling buffer `s` to position `amount` displays: the whole buffer
/// when it fits in `MAX_WIDTH` clusters, else the `MAX_WIDTH` clusters that
/// start at `amount`, wrapping cyclically.
pub open spec fn scrolled_view(s: Seq<char>, amount: int) -> Seq<char> {
    let gs = grapheme_split(s);
    if gs.len() <= MAX_WIDTH {
        s
    } else {
        window_text(gs, amount % (gs.len() as int), MAX_WIDTH as int)
    }
}

/// The scroll position that follows `amount` on buffer `s`: pinned to 0 while
/// the buffer fits in one window, else advanced by one, cyclically.
pub open spec fn advanced_amount(s: Seq<char>, amount: int) -> int {
    let n = grapheme_count(s) as int;
    if n <= MAX_WIDTH {
        0
    } else {
        (amount + 1) % n
    }
}

/// Scroll the buffer over unicode graphemes: the visible window at scroll
/// position `scroll_amount`.
pub fn scroll_by(buffer: &str, scroll_amount: usize) -> (r: String)
    ensures
        r@ == scrolled_view(buffer@, scroll_amount as int),
        grapheme_split(buffer@).flatten() == buffer@,
        (grapheme_count(buffer@) == 0) == (buffer@.len() == 0),
        grapheme_count(buffer@) <= buffer@.len(),
        grapheme_count(buffer@) <= usize::MAX,
{
    let gs = graphemes_of(buffer);
    let n = gs.len();
    let ghost gsv = gs.deep_view();
    proof {
        assert(gsv.len() == n);
        lemma_flatten_len_at_least_count(gsv);
    }
    if n <= MAX_WIDTH {
        return buffer.to_owned();
    }
    let start = scroll_amount % n;
    proof {
        lemma_mod_bound(scroll_amount as int, n as int);
        lemma_small_mod(start as nat, n as nat);
    }
    let mut out = String::new();
    let mut idx = start;
    let mut i: usize = 0;
    while i < MAX_WIDTH
        invariant
            gs.deep_view() == gsv,
            n == gs.len(),
            n == gsv.len(),
            MAX_WIDTH < n,
            start < n,
            i <= MAX_WIDTH,
            idx == (start + i) % (n as int),
            out@ == window_text(gsv, start as int, i as int),
        decreases MAX_WIDTH - i,
    {
        proof {
            lemma_mod_bound((start + i) as int, n as int);
            assert(gsv[idx as int] == gs@[idx as int].deep_view());
        }
        out.append(gs[idx].as_str());
        proof {
            let prev = window_clusters(gsv, start as int, i as int);
            assert(window_clusters(gsv, start as int, i + 1) =~= prev.push(gsv[idx as int]));
            prev.lemma_flatten_push(gsv[idx as int]);
            if start + i < n {
                lemma_small_mod((start + i) as nat, n as nat);
            } else {
                lemma_fundamental_div_mod_converse_mod(
                    (start + i) as int,
                    n as int,
                    1,
                    (start + i - n) as int,
                );
            }
            let t = (start + i + 1) as int;
            if t < n {
                lemma_small_mod(t as nat, n as nat);
            } else {
                lemma_fundamental_div_mod_converse_mod(t, n as int, 1, t - (n as int));
            }
        }
        idx = if idx + 1 == n {
            0
        } else {
            idx + 1
        };
        i = i + 1;
    }
    out
}

/// The scroll position for the next tick; position 0 is kept (and any
/// position reset to 0) whenever the whole buffer fits in one window.
pub fn advance_scroll_amount(buffer: &str, scroll_amount: usize) -> (r: usize)
    requires
        scroll_amount < usize::MAX,
    ensures
        r == advanced_amount(buffer@, scroll_amount as int),
        grapheme_split(buffer@).flatten() == buffer@,
        (grapheme_count(buffer@) == 0) == (buffer@.len() == 0),
        grapheme_count(buffer@) <= buffer@.len(),
{
    let gs = graphemes_of(buffer);
    let n = gs.len();
    proof {
        assert(gs.deep_view().len() == n);
        lemma_flatten_len_at_least_count(gs.deep_view());
    }
    if n <= MAX_WIDTH {
        0
    } else {
        (scroll_amount + 1) % n
    }
}

/// The scroll engine's state: the text being displayed and the cluster index
/// at which the next window starts.
pub struct ScrollState {
    pub buffer: String,
    pub cursor: usize,
}

impl ScrollState {
    /// The state invariant: the cursor always points at a cluster of the
    /// buffer, and stays at 0 whenever no scrolling is needed.
    pub open spec fn well_formed(self) -> bool {
        let n = grapheme_count(self.buffer@);
        &&& n == 0 ==> self.cursor == 0
        &&& n > 0 ==> self.cursor < n
        &&& n <= MAX_WIDTH ==> self.cursor == 0
    }

    /// The empty state a process starts with: nothing to show.
    pub fn new() -> (s: ScrollState)
        ensures
            s.buffer@ == Seq::<char>::empty(),
            s.cursor == 0,
            s.well_formed(),
    {
        ScrollState { buffer: String::new(), cursor: 0 }
    }

    /// Feed one poll result to the engine. Only genuinely new text resets the
    /// state: `Unavailable`, `Unchanged`, and `Changed` with the text already
    /// displayed all leave buffer and cursor untouched, so a transient
    /// provider failure never corrupts or blanks the display.
    pub fn on_poll_result(&mut self, result: PollResult)
        ensures
            (match result {
                PollResult::Changed(t) => {
                    if t@ != old(self).buffer@ {
                        final(self).buffer == t && final(self).cursor == 0
                    } else {
                        *final(self) == *old(self)
                    }
                },
                PollResult::Unchanged => *final(self) == *old(self),
                PollResult::Unavailable => *final(self) == *old(self),
            }),
            old(self).well_formed() ==> final(self).well_formed(),
    {
        match result {
            PollResult::Changed(text) => {
                if text != self.buffer {
                    self.buffer = text;
                    self.cursor = 0;
                }
            },
            PollResult::Unchanged => {},
            PollResult::Unavailable => {},
        }
    }

    /// One display tick: return the window visible at the current cursor and
    /// advance the cursor cyclically. The buffer itself never changes; an
    /// empty buffer yields an empty window, and a buffer that fits in one
    /// window is returned whole with the cursor pinned at 0.
    pub fn tick(&mut self) -> (w: String)
        requires
            old(self).well_formed(),
        ensures
            final(self).well_formed(),
            final(self).buffer == old(self).buffer,
            w@ == scrolled_view(old(self).buffer@, old(self).cursor as int),
            final(self).cursor == advanced_amount(old(self).buffer@, old(self).cursor as int),
            old(self).buffer@.len() == 0 ==> w@.len() == 0 && *final(self) == *old(self),
            grapheme_count(old(self).buffer@) <= MAX_WIDTH ==> w@ == old(self).buffer@
                && *final(self) == *old(self),
            grapheme_count(old(self).buffer@) <= old(self).buffer@.len(),
            (grapheme_count(old(self).buffer@) == 0) == (old(self).buffer@.len() == 0),
    {
        let w = scroll_by(self.buffer.as_str(), self.cursor);
        proof {
            let n = grapheme_count(self.buffer@) as int;
            if n > MAX_WIDTH {
                lemma_mod_bound(self.cursor as int + 1, n);
            }
        }
        self.cursor = advance_scroll_amount(self.buffer.as_str(), self.cursor);
        w
    }
}

/// The cursor position reached after `k` ticks from position `c` on a buffer
/// of `n` clusters that needs scrolling: each tick advances by one,
/// cyclically.
pub open spec fn cursor_after(c: int, k: int, n: int) -> int {
    (c + k) % n
}

/// Whether one of the `n` ticks that start at cursor position `c` starts at
/// position `p`.
pub open spec fn position_visited(c: int, n: int, p: int) -> bool {
    exists|i: int| 0 <= i < n && cursor_after(c, i, n) == p
}

/// A window never splits a grapheme cluster: when the buffer fits, a tick
/// returns the buffer whole, and when it scrolls, the returned text is the
/// concatenation of `MAX_WIDTH` whole clusters of the buffer's split.
pub proof fn lemma_window_whole_clusters(s: Seq<char>, amount: int)
    ensures
        grapheme_count(s) <= MAX_WIDTH ==> scrolled_view(s, amount) == s,
        grapheme_count(s) > MAX_WIDTH ==> {
            let gs = grapheme_split(s);
            let w = window_clusters(gs, amount % (gs.len() as int), MAX_WIDTH as int);
            &&& scrolled_view(s, amount) == w.flatten()
            &&& w.len() == MAX_WIDTH
            &&& forall|i: int| 0 <= i < w.len() ==> gs.contains(#[trigger] w[i])
        },
{
    if grapheme_count(s) > MAX_WIDTH {
        let gs = grapheme_split(s);
        let n = gs.len() as int;
        let c = amount % n;
        let w = window_clusters(gs, c, MAX_WIDTH as int);
        assert forall|i: int| 0 <= i < w.len() implies gs.contains(#[trigger] w[i]) by {
            lemma_mod_bound(c + i, n);
            assert(w[i] == gs[(c + i) % n]);
        }
    }
}

/// Each tick advances the cursor one step along the cycle: from
/// `cursor_after(c, k, n)` the next position is `cursor_after(c, k + 1, n)`.
pub proof fn lemma_cursor_step(s: Seq<char>, c: int, k: int)
    requires
        grapheme_count(s) > MAX_WIDTH,
        0 <= c,
        0 <= k,
    ensures
        advanced_amount(s, cursor_after(c, k, grapheme_count(s) as int))
            == cursor_after(c, k + 1, grapheme_count(s) as int),
{
    let n = grapheme_count(s) as int;
    lemma_small_mod(1nat, n as nat);
    lemma_add_mod_noop(c + k, 1, n);
}

/// Cyclic coverage: on a buffer that needs scrolling, `n` successive ticks
/// start at `n` pairwise distinct cursor positions, together visit every
/// position below `n`, and the position after the `n`-th tick is the starting
/// one again, so the next window repeats the first.
pub proof fn lemma_cyclic_coverage(s: Seq<char>, c: int)
    requires
        grapheme_count(s) > MAX_WIDTH,
        0 <= c < grapheme_count(s),
    ensures
        forall|i: int, j: int|
            0 <= i < grapheme_count(s) && 0 <= j < grapheme_count(s) && i != j
                ==> cursor_after(c, i, grapheme_count(s) as int)
                    != cursor_after(c, j, grapheme_count(s) as int),
        forall|p: int|
            0 <= p < grapheme_count(s)
                ==> #[trigger] position_visited(c, grapheme_count(s) as int, p),
        cursor_after(c, grapheme_count(s) as int, grapheme_count(s) as int) == c,
        scrolled_view(s, cursor_after(c, grapheme_count(s) as int, grapheme_count(s) as int))
            == scrolled_view(s, c),
{
    let n = grapheme_count(s) as int;
    assert forall|i: int| 0 <= i < n implies #[trigger] cursor_after(c, i, n) == (if c + i < n {
        c + i
    } else {
        c + i - n
    }) by {
        if c + i < n {
            lemma_small_mod((c + i) as nat, n as nat);
        } else {
            lemma_fundamental_div_mod_converse_mod(c + i, n, 1, c + i - n);
        }
    }
    assert forall|p: int| 0 <= p < n implies #[trigger] position_visited(c, n, p) by {
        let i = if p >= c {
            p - c
        } else {
            p + n - c
        };
        assert(0 <= i < n);
        assert(cursor_after(c, i, n) == p);
    }
    lemma_fundamental_div_mod_converse_mod(c + n, n, 1, c);
}

} // verus!
