use alacritty_core::cell::{Cell, Flags, WIDE_CHAR, WIDE_CHAR_SPACER, WRAPLINE};
use alacritty_core::grid::Scroll;
use alacritty_core::index::{Column, Direction, Line, Point};
use alacritty_core::scheduler::{EventType, Scheduler, TimerId, Topic};
use alacritty_core::search::{InvalidPattern, Match, RegexSearch};
use alacritty_core::search_state::{
    SearchOutcome, SearchState, MAX_SEARCH_WHILE_TYPING, TYPING_SEARCH_DELAY,
};
use alacritty_core::term::Term;

fn at(line: i32, column: usize) -> Point {
    Point::new(Line(line), Column(column))
}

fn range(start: Point, end: Point) -> Match {
    Match::new(start, end)
}

/// Writes `text` into the line `line`, from its first column on. A `\r`
/// at the end marks the line as wrapped.
fn write_line(term: &mut Term, line: i32, text: &str) {
    let columns = term.grid().columns();
    let wraps = text.ends_with('\r');
    let text = text.trim_end_matches('\r');
    let mut column = 0;
    for c in text.chars() {
        term.grid_mut().set_cell(at(line, column), Cell::with_char(c));
        column += 1;
    }
    if wraps {
        let last = at(line, columns - 1);
        let mut cell = Cell::with_char(term.grid().cell(last).c);
        cell.flags.insert(WRAPLINE);
        term.grid_mut().set_cell(last, cell);
    }
}

/// A terminal of `screen_lines` lines whose last lines hold `lines`; the
/// lines before them are in the history.
fn term_with(lines: &[&str], screen_lines: usize, columns: usize) -> Term {
    let mut term = Term::new(screen_lines, columns, 10_000);
    let bottom = screen_lines as i32 - 1;
    for (i, text) in lines.iter().enumerate() {
        if i < screen_lines {
            write_line(&mut term, i as i32, text);
        } else {
            term.grid_mut().scroll_up(1);
            write_line(&mut term, bottom, text);
        }
    }
    term
}

#[test]
fn compiles_valid_patterns_only() {
    assert!(RegexSearch::new("fo+").is_ok());
    assert_eq!(RegexSearch::new("fo(").err(), Some(InvalidPattern));
    assert_eq!(RegexSearch::new("fo+").unwrap().pattern(), "fo+");
}

#[test]
fn first_match_counts_characters() {
    let search = RegexSearch::new("は+").unwrap();
    let hay: Vec<char> = "こんにちはは!".chars().collect();
    assert_eq!(search.first_match(&hay), Some((4, 6)));
    let none: Vec<char> = "hello".chars().collect();
    assert_eq!(search.first_match(&none), None);
    // An empty match is no match.
    let empty = RegexSearch::new("x*").unwrap();
    assert_eq!(empty.first_match(&none), None);
}

#[test]
fn finds_the_first_match_to_the_right() {
    let term = term_with(&["testing66", "Alacritty", "123", "Alacritty", "123"], 5, 10);
    let search = RegexSearch::new("Ala[a-z]+").unwrap();
    assert_eq!(
        term.regex_search_right(&search, at(0, 0), at(4, 9)),
        Some(range(at(1, 0), at(1, 8)))
    );
    assert_eq!(
        term.regex_search_right(&search, at(1, 1), at(4, 9)),
        Some(range(at(3, 0), at(3, 8)))
    );
    assert_eq!(term.regex_search_right(&search, at(3, 1), at(4, 9)), None);
    // The match has to end within the range.
    assert_eq!(term.regex_search_right(&search, at(0, 0), at(1, 7)), Some(range(at(1, 0), at(1, 7))));
}

#[test]
fn matches_follow_wrapped_lines() {
    let term = term_with(&["xxxxxxAla\r", "critty 12", "3"], 3, 9);
    let search = RegexSearch::new("Alacritty").unwrap();
    assert_eq!(
        term.regex_search_right(&search, at(0, 0), at(2, 8)),
        Some(range(at(0, 6), at(1, 5)))
    );
}

#[test]
fn matches_end_with_the_line() {
    let term = term_with(&["xxxxxxAla", "critty 12"], 2, 9);
    let search = RegexSearch::new("Alacritty").unwrap();
    assert_eq!(term.regex_search_right(&search, at(0, 0), at(1, 8)), None);
    let line_end = RegexSearch::new("[a-z]+").unwrap();
    assert_eq!(
        term.regex_matches(&line_end, at(0, 0), at(1, 8)),
        vec![range(at(0, 0), at(0, 5)), range(at(0, 7), at(0, 8)), range(at(1, 0), at(1, 5))]
    );
}

#[test]
fn wide_character_spacers_are_no_text() {
    let mut term = term_with(&["a\u{5b57}b"], 1, 6);
    // The wide character takes two cells: the second is a spacer.
    let mut wide = Cell::with_char('\u{5b57}');
    wide.flags = Flags::from_bits(WIDE_CHAR);
    term.grid_mut().set_cell(at(0, 1), wide);
    let mut spacer = Cell::with_char(' ');
    spacer.flags = Flags::from_bits(WIDE_CHAR_SPACER);
    term.grid_mut().set_cell(at(0, 2), spacer);
    term.grid_mut().set_cell(at(0, 3), Cell::with_char('b'));
    let search = RegexSearch::new("a\u{5b57}b").unwrap();
    assert_eq!(
        term.regex_search_right(&search, at(0, 0), at(0, 5)),
        Some(range(at(0, 0), at(0, 3)))
    );
}

#[test]
fn regex_matches_come_in_reading_order() {
    let term = term_with(&["foo foo", "bar", "foo"], 3, 8);
    let search = RegexSearch::new("foo").unwrap();
    assert_eq!(
        term.regex_matches(&search, at(0, 0), at(2, 7)),
        vec![range(at(0, 0), at(0, 2)), range(at(0, 4), at(0, 6)), range(at(2, 0), at(2, 2))]
    );
    assert_eq!(
        term.regex_matches(&search, at(0, 1), at(2, 1)),
        vec![range(at(0, 4), at(0, 6))]
    );
    let none = RegexSearch::new("baz").unwrap();
    assert!(term.regex_matches(&none, at(0, 0), at(2, 7)).is_empty());
}

#[test]
fn line_search_follows_wrapped_lines() {
    let term = term_with(&["one", "two\r", "three\r", "four", "five"], 5, 5);
    assert_eq!(term.line_search_left(at(3, 2)), at(1, 0));
    assert_eq!(term.line_search_left(at(1, 4)), at(1, 0));
    assert_eq!(term.line_search_left(at(0, 1)), at(0, 0));
    assert_eq!(term.line_search_right(at(1, 0)), at(3, 4));
    assert_eq!(term.line_search_right(at(3, 0)), at(3, 4));
    assert_eq!(term.line_search_right(at(4, 0)), at(4, 4));
    assert!(term.wraps(Line(1)));
    assert!(!term.wraps(Line(3)));
}

#[test]
fn search_next_goes_round() {
    let term = term_with(&["foo one", "two", "foo three", "four"], 4, 10);
    let search = RegexSearch::new("foo").unwrap();
    let first = range(at(0, 0), at(0, 2));
    let second = range(at(2, 0), at(2, 2));
    assert_eq!(term.search_next(&search, at(0, 0), Direction::Right, None), Some(first));
    assert_eq!(term.search_next(&search, at(0, 1), Direction::Right, None), Some(second));
    assert_eq!(term.search_next(&search, at(2, 1), Direction::Right, None), Some(first));
    assert_eq!(term.search_next(&search, at(3, 9), Direction::Left, None), Some(second));
    assert_eq!(term.search_next(&search, at(1, 0), Direction::Left, None), Some(first));
    assert_eq!(term.search_next(&search, at(2, 0), Direction::Left, None), Some(second));
    let none = RegexSearch::new("five").unwrap();
    assert_eq!(term.search_next(&none, at(0, 0), Direction::Right, None), None);
}

#[test]
fn search_next_keeps_to_its_limit() {
    let term = term_with(&["foo", "a", "b", "c", "d"], 5, 4);
    let search = RegexSearch::new("foo").unwrap();
    assert_eq!(term.search_next(&search, at(4, 0), Direction::Left, Some(3)), None);
    assert_eq!(
        term.search_next(&search, at(4, 0), Direction::Left, Some(4)),
        Some(range(at(0, 0), at(0, 2)))
    );
    let other = term_with(&["a", "b", "c", "d", "foo"], 5, 4);
    assert_eq!(other.search_next(&search, at(0, 0), Direction::Right, Some(3)), None);
    assert_eq!(
        other.search_next(&search, at(0, 0), Direction::Right, Some(4)),
        Some(range(at(4, 0), at(4, 2)))
    );
}

#[test]
fn search_scrolls_to_a_match_far_back() {
    // Fifty lines, of which the viewport shows the last ten; the match is
    // on the line that is furthest back.
    let mut lines: Vec<String> = vec![String::from("foo")];
    for i in 1..50 {
        lines.push(format!("line {i}"));
    }
    let lines: Vec<&str> = lines.iter().map(|line| line.as_str()).collect();
    let mut term = term_with(&lines, 10, 10);
    assert_eq!(term.grid().total_lines(), 50);
    assert_eq!(term.grid().display_offset(), 0);
    let mut scheduler = Scheduler::new();
    let mut state = SearchState::new();
    state.start(Direction::Right, at(0, 0));
    state.update("foo", &mut term, &mut scheduler, 1, 0);

    let found = range(at(-40, 0), at(-40, 2));
    assert_eq!(state.focused_match(), Some(found));
    assert_eq!(state.outcome(), SearchOutcome::MatchFound);
    // The viewport has moved so that it shows the line of the match.
    assert_eq!(term.grid().display_offset(), 40);
    assert_eq!(state.display_offset_delta(), -40);
    assert_eq!(scheduler.len(), 0);

    // Ending the search puts the viewport back.
    state.cancel(&mut term);
    assert_eq!(term.grid().display_offset(), 0);
    assert!(!state.is_active());
    assert_eq!(state.focused_match(), None);
}

#[test]
fn search_without_a_match_puts_the_viewport_back() {
    let mut lines: Vec<String> = vec![String::from("foo")];
    for i in 1..30 {
        lines.push(format!("line {i}"));
    }
    let lines: Vec<&str> = lines.iter().map(|line| line.as_str()).collect();
    let mut term = term_with(&lines, 10, 10);
    let mut scheduler = Scheduler::new();
    let mut state = SearchState::new();
    state.start(Direction::Left, at(9, 9));
    state.update("foo", &mut term, &mut scheduler, 1, 0);
    assert_eq!(term.grid().display_offset(), 20);
    state.update("foox", &mut term, &mut scheduler, 1, 0);
    assert_eq!(state.outcome(), SearchOutcome::NoMatch);
    assert_eq!(state.focused_match(), None);
    assert_eq!(term.grid().display_offset(), 0);
    assert_eq!(state.display_offset_delta(), 0);
}

#[test]
fn invalid_regex_has_no_match() {
    let mut term = term_with(&["foo(", "bar"], 2, 5);
    let mut scheduler = Scheduler::new();
    let mut state = SearchState::new();
    state.start(Direction::Right, at(0, 0));
    state.update("foo(", &mut term, &mut scheduler, 1, 0);
    assert_eq!(state.outcome(), SearchOutcome::NoMatch);
    assert_eq!(state.focused_match(), None);
    assert_eq!(scheduler.len(), 0);
    // An empty text ends the search for a match.
    state.update("", &mut term, &mut scheduler, 1, 0);
    assert_eq!(state.outcome(), SearchOutcome::Pending);
    assert!(state.is_active());
}

#[test]
fn inactive_search_takes_no_text() {
    let mut term = term_with(&["foo"], 1, 5);
    let mut scheduler = Scheduler::new();
    let mut state = SearchState::new();
    state.update("foo", &mut term, &mut scheduler, 1, 0);
    assert_eq!(state.focused_match(), None);
    assert_eq!(state.outcome(), SearchOutcome::Pending);
}

#[test]
fn search_beyond_the_limit_is_put_off() {
    // More lines than a search goes over while the user types, with the
    // match on the oldest.
    let total = MAX_SEARCH_WHILE_TYPING + 200;
    let mut term = Term::new(10, 5, 10_000);
    write_line(&mut term, 0, "foo");
    for _ in 10..total {
        term.grid_mut().scroll_up(1);
    }
    assert_eq!(term.grid().total_lines(), total);
    let oldest = term.topmost_line().0;
    let mut scheduler = Scheduler::new();
    let mut state = SearchState::new();
    state.start(Direction::Left, at(9, 0));
    state.update("foo", &mut term, &mut scheduler, 7, 1_000);
    assert_eq!(state.outcome(), SearchOutcome::LimitedNoMatch);
    assert_eq!(state.focused_match(), None);
    assert_eq!(term.grid().display_offset(), 0);
    let id = TimerId::new(Topic::DelayedSearch, 7);
    assert!(scheduler.scheduled(id));
    assert_eq!(scheduler.len(), 1);
    // Typing on does not queue a second search.
    state.update("fo", &mut term, &mut scheduler, 7, 2_000);
    assert_eq!(scheduler.len(), 1);

    // Nothing is due before the delay is over.
    let (events, next) = scheduler.update(1_000 + TYPING_SEARCH_DELAY - 1);
    assert!(events.is_empty());
    assert_eq!(next, Some(1_000 + TYPING_SEARCH_DELAY));
    let (events, next) = scheduler.update(1_000 + TYPING_SEARCH_DELAY);
    assert_eq!(events.len(), 1);
    assert_eq!(events[0].payload, EventType::SearchNext);
    assert_eq!(events[0].window_id, Some(7));
    assert_eq!(next, None);

    // The search that was put off has no limit.
    state.goto_match(&mut term, &mut scheduler, None, 7, 3_000);
    assert_eq!(state.outcome(), SearchOutcome::MatchFound);
    assert_eq!(state.focused_match(), Some(range(at(oldest, 0), at(oldest, 1))));
    assert_eq!(term.grid().display_offset(), (-oldest) as usize);
}

#[test]
fn finding_a_match_ends_the_wait_for_a_delayed_search() {
    let mut term = term_with(&["foo", "bar"], 2, 5);
    let mut scheduler = Scheduler::new();
    let id = TimerId::new(Topic::DelayedSearch, 3);
    scheduler.schedule(
        alacritty_core::scheduler::Event::new(EventType::SearchNext, Some(3)),
        10,
        false,
        id,
        0,
    );
    let mut state = SearchState::new();
    state.start(Direction::Right, at(0, 0));
    state.update("bar", &mut term, &mut scheduler, 3, 0);
    assert_eq!(state.outcome(), SearchOutcome::MatchFound);
    assert!(!scheduler.scheduled(id));
}

#[test]
fn term_scrolls_and_keeps_colors() {
    let mut term = term_with(&["a", "b", "c", "d"], 2, 3);
    assert_eq!(term.topmost_line(), Line(-2));
    assert_eq!(term.bottommost_line(), Line(1));
    assert_eq!(term.last_column(), Column(2));
    term.scroll_display(Scroll::Top);
    assert_eq!(term.grid().display_offset(), 2);
    term.scroll_to_point(at(1, 0));
    assert_eq!(term.grid().display_offset(), 0);
    assert!(!term.vi_mode());
    term.set_vi_mode(true);
    assert!(term.vi_mode());
    assert_eq!(term.color(258), None);
    term.set_color(258, Some(alacritty_core::color::Rgb::new(1, 2, 3)));
    assert_eq!(term.color(258), Some(alacritty_core::color::Rgb::new(1, 2, 3)));
}

#[test]
fn a_range_that_ends_before_it_starts_has_no_match() {
    let term = term_with(&["foo foo"], 1, 8);
    let search = RegexSearch::new("foo").unwrap();
    assert_eq!(term.regex_search_right(&search, at(0, 5), at(0, 2)), None);
    assert!(term.regex_matches(&search, at(0, 5), at(0, 2)).is_empty());
    assert_eq!(term.regex_matches(&search, at(0, 4), at(0, 6)), vec![range(at(0, 4), at(0, 6))]);
}

#[test]
fn an_empty_leftmost_match_is_no_match() {
    let search = RegexSearch::new("a*").unwrap();
    let hay: Vec<char> = "baa".chars().collect();
    // The leftmost match is the empty one before `b`: the `a`s behind it are
    // not looked at.
    assert_eq!(search.first_match(&hay), None);
    let hay: Vec<char> = "aab".chars().collect();
    assert_eq!(search.first_match(&hay), Some((0, 2)));
    assert_eq!(search.first_match(&Vec::new()), None);
}
