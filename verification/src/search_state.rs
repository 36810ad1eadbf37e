//! The search that the user types into: its regular expression, the match
//! it has gone to, and what it has done to the viewport.

use vstd::prelude::*;

use crate::grid::{GridView, Scroll};
use crate::index::{Column, Direction, Line, Point};
use crate::scheduler::{
    deadline_after, position_of, with_timer, Event, EventType, Scheduler, Timer, TimerId, Topic,
};
use crate::search::{match_on_grid, regex_is_valid, Match, RegexSearch};
use crate::term::{Term, TermView};

verus! {

/// Number of lines that a search goes over while the user is typing.
pub const MAX_SEARCH_WHILE_TYPING: usize = 1000;

/// Time after the last key, in nanoseconds, at which a search that ran into
/// its limit is made again without one.
pub const TYPING_SEARCH_DELAY: u64 = 500_000_000;

/// How the last search ended.
#[derive(Debug, Clone, Copy, PartialEq, Eq, Structural)]
pub enum SearchOutcome {
    /// No search was made.
    Pending,
    /// The search has gone to a match.
    MatchFound,
    /// There is no match.
    NoMatch,
    /// No match is within the limit of lines; a search without limit is
    /// due.
    LimitedNoMatch,
}

/// The mathematical model of a [`SearchState`].
pub struct SearchStateView {
    /// Whether the user is searching.
    pub active: bool,
    /// The pattern of the regular expression, where it is one.
    pub pattern: Option<Seq<char>>,
    pub direction: Direction,
    /// Where the search starts.
    pub origin: Point,
    /// The match that the search has gone to.
    pub focused_match: Option<Match>,
    /// Lines by which the search has moved the viewport.
    pub display_offset_delta: int,
    pub outcome: SearchOutcome,
}

/// `point` held within the grid.
pub open spec fn clamped(grid: GridView<crate::cell::Cell>, point: Point) -> Point {
    Point {
        line: Line(
            if point.line.0 < grid.topmost_line() {
                grid.topmost_line() as i32
            } else if point.line.0 > grid.bottommost_line() {
                grid.bottommost_line() as i32
            } else {
                point.line.0
            },
        ),
        column: Column(
            if point.column.0 < grid.columns {
                point.column.0
            } else {
                (grid.columns - 1) as usize
            },
        ),
    }
}

/// `delta` and `moved`, held within the numbers of an `i32`.
pub open spec fn delta_after(delta: int, moved: int) -> int {
    if delta + moved > i32::MAX {
        i32::MAX as int
    } else if delta + moved < i32::MIN {
        i32::MIN as int
    } else {
        delta + moved
    }
}

/// The identity of the timer of a window's delayed search.
pub open spec fn delayed_search_id(window_id: u64) -> TimerId {
    TimerId { topic: Topic::DelayedSearch, window_id }
}

/// The limit of lines that holds for a terminal of `total_lines` lines: a
/// limit that the terminal has not the lines to run into does not hold.
pub open spec fn effective_limit(limit: Option<usize>, total_lines: nat) -> Option<usize> {
    match limit {
        Some(l) => if l <= total_lines {
            Some(l)
        } else {
            None
        },
        None => None,
    }
}

impl SearchStateView {
    /// The state in which nobody searches.
    pub open spec fn inactive() -> SearchStateView {
        SearchStateView {
            active: false,
            pattern: None,
            direction: Direction::Right,
            origin: Point { line: Line(0), column: Column(0) },
            focused_match: None,
            display_offset_delta: 0,
            outcome: SearchOutcome::Pending,
        }
    }

    /// State and terminal after the viewport was put back to where it was
    /// before the search moved it.
    pub open spec fn reset(self, term: TermView) -> (SearchStateView, TermView) {
        (
            SearchStateView { focused_match: None, display_offset_delta: 0, ..self },
            TermView {
                grid: GridView {
                    display_offset: term.grid.scrolled_display(
                        Scroll::Delta(self.display_offset_delta as i32),
                    ),
                    ..term.grid
                },
                ..term
            },
        )
    }

    /// State, terminal and timers after the search has gone to the next
    /// match, on no more than `limit` lines if the terminal has that many.
    ///
    /// A match that is found is shown and ends the wait for a delayed
    /// search. Without a match and without a limit the viewport is put
    /// back; without a match within the limit, a search without limit is
    /// made due after [`TYPING_SEARCH_DELAY`], unless one is due already.
    pub open spec fn gone_to_match(
        self,
        term: TermView,
        timers: Seq<Timer>,
        limit: Option<usize>,
        window_id: u64,
        now: u64,
    ) -> (SearchStateView, TermView, Seq<Timer>) {
        let id = delayed_search_id(window_id);
        match self.pattern {
            None => {
                let put_back = self.reset(term);
                (SearchStateView { outcome: SearchOutcome::NoMatch, ..put_back.0 }, put_back.1, timers)
            },
            Some(pattern) => {
                let limit = effective_limit(limit, term.grid.storage.len);
                match term.search_next(pattern, clamped(term.grid, self.origin), self.direction, limit) {
                    Some(m) => {
                        let offset = term.grid.offset_showing(m.start.line.0 as int);
                        (
                            SearchStateView {
                                focused_match: Some(m),
                                display_offset_delta: delta_after(
                                    self.display_offset_delta,
                                    term.grid.display_offset - offset,
                                ),
                                outcome: SearchOutcome::MatchFound,
                                ..self
                            },
                            TermView { grid: GridView { display_offset: offset, ..term.grid }, ..term },
                            match position_of(timers, id) {
                                Some(i) => timers.remove(i),
                                None => timers,
                            },
                        )
                    },
                    None => if limit is None {
                        let put_back = self.reset(term);
                        (
                            SearchStateView { outcome: SearchOutcome::NoMatch, ..put_back.0 },
                            put_back.1,
                            timers,
                        )
                    } else {
                        (
                            SearchStateView {
                                focused_match: None,
                                outcome: SearchOutcome::LimitedNoMatch,
                                ..self
                            },
                            term,
                            if position_of(timers, id) is Some {
                                timers
                            } else {
                                with_timer(
                                    timers,
                                    Timer {
                                        deadline: deadline_after(now, TYPING_SEARCH_DELAY),
                                        event: Event {
                                            window_id: Some(window_id),
                                            payload: EventType::SearchNext,
                                        },
                                        id,
                                        interval: None,
                                    },
                                )
                            },
                        )
                    },
                }
            },
        }
    }

    /// State, terminal and timers after the user has typed the text `text`
    /// into the search: an empty text ends the search for a match; any
    /// other text is compiled, and the search goes to its next match on no
    /// more than [`MAX_SEARCH_WHILE_TYPING`] lines. A text that is no
    /// regular expression has no match.
    pub open spec fn updated(
        self,
        text: Seq<char>,
        term: TermView,
        timers: Seq<Timer>,
        window_id: u64,
        now: u64,
    ) -> (SearchStateView, TermView, Seq<Timer>) {
        if !self.active {
            (self, term, timers)
        } else if text.len() == 0 {
            let put_back = self.reset(term);
            (
                SearchStateView { pattern: None, outcome: SearchOutcome::Pending, ..put_back.0 },
                put_back.1,
                timers,
            )
        } else {
            (SearchStateView {
                pattern: if regex_is_valid(text) {
                    Some(text)
                } else {
                    None
                },
                ..self
            }).gone_to_match(term, timers, Some(MAX_SEARCH_WHILE_TYPING), window_id, now)
        }
    }
}

/// The search that the user types into.
#[derive(Debug)]
pub struct SearchState {
    active: bool,
    regex: Option<RegexSearch>,
    direction: Direction,
    origin: Point,
    focused_match: Option<Match>,
    display_offset_delta: i32,
    outcome: SearchOutcome,
}

impl View for SearchState {
    type V = SearchStateView;

    closed spec fn view(&self) -> SearchStateView {
        SearchStateView {
            active: self.active,
            pattern: match self.regex {
                Some(search) => Some(search@),
                None => None,
            },
            direction: self.direction,
            origin: self.origin,
            focused_match: self.focused_match,
            display_offset_delta: self.display_offset_delta as int,
            outcome: self.outcome,
        }
    }
}

impl SearchState {
    /// The state in which nobody searches.
    pub fn new() -> (state: SearchState)
        ensures
            state@ == SearchStateView::inactive(),
    {
        SearchState {
            active: false,
            regex: None,
            direction: Direction::Right,
            origin: Point { line: Line(0), column: Column(0) },
            focused_match: None,
            display_offset_delta: 0,
            outcome: SearchOutcome::Pending,
        }
    }

    /// Begins a search from `origin` in the direction `direction`.
    pub fn start(&mut self, direction: Direction, origin: Point)
        ensures
            final(self)@ == (SearchStateView {
                active: true,
                direction,
                origin,
                ..SearchStateView::inactive()
            }),
    {
        self.active = true;
        self.regex = None;
        self.direction = direction;
        self.origin = origin;
        self.focused_match = None;
        self.display_offset_delta = 0;
        self.outcome = SearchOutcome::Pending;
    }

    /// Ends the search and puts the viewport back to where it was.
    pub fn cancel(&mut self, term: &mut Term)
        requires
            old(term).wf(),
        ensures
            final(term).wf(),
            final(self)@ == SearchStateView::inactive(),
            final(term)@ == old(self)@.reset(old(term)@).1,
    {
        self.reset_state(term);
        self.active = false;
        self.regex = None;
        self.direction = Direction::Right;
        self.origin = Point { line: Line(0), column: Column(0) };
        self.outcome = SearchOutcome::Pending;
    }

    /// Whether the user is searching.
    pub fn is_active(&self) -> (r: bool)
        ensures
            r == self@.active,
    {
        self.active
    }

    /// The match that the search has gone to.
    pub fn focused_match(&self) -> (m: Option<Match>)
        ensures
            m == self@.focused_match,
    {
        self.focused_match
    }

    /// How the last search ended.
    pub fn outcome(&self) -> (outcome: SearchOutcome)
        ensures
            outcome == self@.outcome,
    {
        self.outcome
    }

    /// Lines by which the search has moved the viewport.
    pub fn display_offset_delta(&self) -> (delta: i32)
        ensures
            delta == self@.display_offset_delta,
    {
        self.display_offset_delta
    }

    /// Puts the viewport back to where it was before the search moved it.
    pub fn reset_state(&mut self, term: &mut Term)
        requires
            old(term).wf(),
        ensures
            final(term).wf(),
            (final(self)@, final(term)@) == old(self)@.reset(old(term)@),
    {
        term.scroll_display(Scroll::Delta(self.display_offset_delta));
        self.display_offset_delta = 0;
        self.focused_match = None;
    }

    /// Goes to the next match, searching no more than `limit` lines if the
    /// terminal has that many.
    #[verifier::rlimit(40)]
    pub fn goto_match(
        &mut self,
        term: &mut Term,
        scheduler: &mut Scheduler,
        limit: Option<usize>,
        window_id: u64,
        now: u64,
    )
        requires
            old(term).wf(),
            old(scheduler).wf(),
        ensures
            final(term).wf(),
            final(scheduler).wf(),
            (final(self)@, final(term)@, final(scheduler)@) == old(self)@.gone_to_match(
                old(term)@,
                old(scheduler)@,
                limit,
                window_id,
                now,
            ),
    {
        proof {
            term.lemma_wf();
        }
        let timer_id: TimerId = TimerId::new(Topic::DelayedSearch, window_id);
        let limit: Option<usize> = match limit {
            Some(l) => if l <= term.grid().total_lines() {
                Some(l)
            } else {
                None
            },
            None => None,
        };
        let top: i32 = term.topmost_line().0;
        let bottom: i32 = term.bottommost_line().0;
        let columns: usize = term.grid().columns();
        let origin: Point = Point {
            line: Line(
                if self.origin.line.0 < top {
                    top
                } else if self.origin.line.0 > bottom {
                    bottom
                } else {
                    self.origin.line.0
                },
            ),
            column: Column(
                if self.origin.column.0 < columns {
                    self.origin.column.0
                } else {
                    columns - 1
                },
            ),
        };
        let found: Option<Match> = match &self.regex {
            Some(search) => term.search_next(search, origin, self.direction, limit),
            None => {
                self.reset_state(term);
                self.outcome = SearchOutcome::NoMatch;
                return ;
            },
        };
        match found {
            Some(m) => {
                let old_offset: i64 = term.grid().display_offset() as i64;
                term.scroll_to_point(m.start);
                proof {
                    term.lemma_wf();
                }
                let new_offset: i64 = term.grid().display_offset() as i64;
                let moved: i64 = self.display_offset_delta as i64 + (old_offset - new_offset);
                self.display_offset_delta = if moved > i32::MAX as i64 {
                    i32::MAX
                } else if moved < i32::MIN as i64 {
                    i32::MIN
                } else {
                    moved as i32
                };
                self.focused_match = Some(m);
                self.outcome = SearchOutcome::MatchFound;
                scheduler.unschedule(timer_id);
            },
            None => {
                if limit.is_none() {
                    self.reset_state(term);
                    self.outcome = SearchOutcome::NoMatch;
                } else {
                    if !scheduler.scheduled(timer_id) {
                        let event = Event::new(EventType::SearchNext, Some(window_id));
                        scheduler.schedule(event, TYPING_SEARCH_DELAY, false, timer_id, now);
                    }
                    self.focused_match = None;
                    self.outcome = SearchOutcome::LimitedNoMatch;
                }
            },
        }
    }

    /// Takes the text `text` that the user has typed into the search.
    pub fn update(
        &mut self,
        text: &str,
        term: &mut Term,
        scheduler: &mut Scheduler,
        window_id: u64,
        now: u64,
    )
        requires
            old(term).wf(),
            old(scheduler).wf(),
        ensures
            final(term).wf(),
            final(scheduler).wf(),
            (final(self)@, final(term)@, final(scheduler)@) == old(self)@.updated(
                text@,
                old(term)@,
                old(scheduler)@,
                window_id,
                now,
            ),
    {
        if !self.active {
            return ;
        }
        if text.unicode_len() == 0 {
            self.reset_state(term);
            self.regex = None;
            self.outcome = SearchOutcome::Pending;
        } else {
            self.regex = match RegexSearch::new(text) {
                Ok(search) => Some(search),
                Err(_) => None,
            };
            self.goto_match(term, scheduler, Some(MAX_SEARCH_WHILE_TYPING), window_id, now);
        }
    }
}

} // verus!
