use alacritty_core::cell::{Cell, CellExtra, Hyperlink, WRAPLINE};
use alacritty_core::config::{
    Hint, HintAction, HintContent, HintInternalAction, HintMouse, Hints, LazyRegex, Program,
};
use alacritty_core::grid::Scroll;
use alacritty_core::hint::{
    hint_post_processing, sort_dedup, visible_regex_match_iter, visible_unique_hyperlinks_iter,
    HintLabels, HintPostProcessor, HintState, HINT_SPLIT_PERCENTAGE, MAX_SEARCH_LINES,
};
use alacritty_core::index::{Column, Line, Point};
use alacritty_core::search::{Match, RegexSearch};
use alacritty_core::term::Term;

fn at(line: i32, column: usize) -> Point {
    Point::new(Line(line), Column(column))
}

fn range(start: Point, end: Point) -> Match {
    Match::new(start, end)
}

fn write_line(term: &mut Term, line: i32, text: &str) {
    let columns = term.grid().columns();
    let wraps = text.ends_with('\r');
    let text = text.trim_end_matches('\r');
    let mut column = 0;
    for c in text.chars() {
        term.grid_mut().set_cell(at(line, column), Cell::with_char(c));
        column += 1;
    }
    if wraps {
        let last = at(line, columns - 1);
        let mut cell = Cell::with_char(term.grid().cell(last).c);
        cell.flags.insert(WRAPLINE);
        term.grid_mut().set_cell(last, cell);
    }
}

fn term_with(lines: &[&str], screen_lines: usize, columns: usize) -> Term {
    let mut term = Term::new(screen_lines, columns, 10_000);
    let bottom = screen_lines as i32 - 1;
    for (i, text) in lines.iter().enumerate() {
        if i < screen_lines {
            write_line(&mut term, i as i32, text);
        } else {
            term.grid_mut().scroll_up(1);
            write_line(&mut term, bottom, text);
        }
    }
    term
}

fn link_cell(c: char, id: &str) -> Cell {
    let mut cell = Cell::with_char(c);
    cell.extra = Some(CellExtra {
        zerowidth: Vec::new(),
        underline_color: None,
        hyperlink: Some(Hyperlink::new(id.into(), format!("https://{id}.org"))),
    });
    cell
}

fn regex_hint(pattern: &str, post_processing: bool, persist: bool) -> Hint {
    Hint {
        content: HintContent::new(Some(LazyRegex::new(pattern.into())), false),
        action: HintAction::Action(HintInternalAction::Copy),
        post_processing,
        persist,
        mouse: None,
    }
}

fn text(labels: &Vec<Vec<char>>) -> Vec<String> {
    labels.iter().map(|label| label.iter().collect()).collect()
}

#[test]
fn hint_label_generation() {
    let mut generator = HintLabels::new("0123", HINT_SPLIT_PERCENTAGE);

    assert_eq!(generator.next(), vec!['0']);
    assert_eq!(generator.next(), vec!['1']);

    assert_eq!(generator.next(), vec!['2', '0']);
    assert_eq!(generator.next(), vec!['2', '1']);
    assert_eq!(generator.next(), vec!['3', '0']);
    assert_eq!(generator.next(), vec!['3', '1']);

    assert_eq!(generator.next(), vec!['2', '2', '0']);
    assert_eq!(generator.next(), vec!['2', '2', '1']);
    assert_eq!(generator.next(), vec!['2', '3', '0']);
    assert_eq!(generator.next(), vec!['2', '3', '1']);
    assert_eq!(generator.next(), vec!['3', '2', '0']);
    assert_eq!(generator.next(), vec!['3', '2', '1']);
    assert_eq!(generator.next(), vec!['3', '3', '0']);
    assert_eq!(generator.next(), vec!['3', '3', '1']);

    assert_eq!(generator.next(), vec!['2', '2', '2', '0']);
    assert_eq!(generator.next(), vec!['2', '2', '2', '1']);
    assert_eq!(generator.next(), vec!['2', '2', '3', '0']);
    assert_eq!(generator.next(), vec!['2', '2', '3', '1']);
    assert_eq!(generator.next(), vec!['2', '3', '2', '0']);
    assert_eq!(generator.next(), vec!['2', '3', '2', '1']);
    assert_eq!(generator.next(), vec!['2', '3', '3', '0']);
    assert_eq!(generator.next(), vec!['2', '3', '3', '1']);
    assert_eq!(generator.next(), vec!['3', '2', '2', '0']);
    assert_eq!(generator.next(), vec!['3', '2', '2', '1']);
    assert_eq!(generator.next(), vec!['3', '2', '3', '0']);
    assert_eq!(generator.next(), vec!['3', '2', '3', '1']);
    assert_eq!(generator.next(), vec!['3', '3', '2', '0']);
    assert_eq!(generator.next(), vec!['3', '3', '2', '1']);
    assert_eq!(generator.next(), vec!['3', '3', '3', '0']);
    assert_eq!(generator.next(), vec!['3', '3', '3', '1']);
}

#[test]
fn split_point_follows_the_percentage() {
    // Nothing but the first character ends a label.
    let mut generator = HintLabels::new("abc", 0);
    assert_eq!(generator.next(), vec!['a']);
    assert_eq!(generator.next(), vec!['b', 'a']);
    assert_eq!(generator.next(), vec!['c', 'a']);
    assert_eq!(generator.next(), vec!['b', 'b', 'a']);
    // All but the last character end a label.
    let mut generator = HintLabels::new("abcde", 99);
    assert_eq!(generator.next(), vec!['a']);
    assert_eq!(generator.next(), vec!['b']);
    assert_eq!(generator.next(), vec!['c']);
    assert_eq!(generator.next(), vec!['d']);
    assert_eq!(generator.next(), vec!['e', 'a']);
    // The smallest alphabet.
    let mut generator = HintLabels::new("xy", HINT_SPLIT_PERCENTAGE);
    assert_eq!(generator.next(), vec!['x']);
    assert_eq!(generator.next(), vec!['y', 'x']);
    assert_eq!(generator.next(), vec!['y', 'y', 'x']);
}

#[test]
fn labels_are_unique_and_prefix_free() {
    for alphabet in ["ab", "abc", "jfkdls;ahgurieowpq"] {
        let mut generator = HintLabels::new(alphabet, HINT_SPLIT_PERCENTAGE);
        let labels: Vec<Vec<char>> = (0..300).map(|_| generator.next()).collect();
        for (i, a) in labels.iter().enumerate() {
            for (j, b) in labels.iter().enumerate() {
                if i != j {
                    assert_ne!(a, b);
                    assert!(!b.starts_with(a), "{a:?} starts {b:?}");
                }
            }
        }
    }
}

#[test]
fn sort_dedup_keeps_the_longest_match_of_each_start() {
    let raw = vec![
        range(at(0, 0), at(0, 5)),
        range(at(0, 0), at(0, 3)),
        range(at(0, 2), at(0, 4)),
    ];
    assert_eq!(sort_dedup(&raw), vec![range(at(0, 0), at(0, 5)), range(at(0, 2), at(0, 4))]);
    // The order in which the matches come does not matter.
    let raw = vec![
        range(at(0, 2), at(0, 4)),
        range(at(0, 0), at(0, 3)),
        range(at(0, 0), at(0, 5)),
    ];
    assert_eq!(sort_dedup(&raw), vec![range(at(0, 0), at(0, 5)), range(at(0, 2), at(0, 4))]);
    assert_eq!(sort_dedup(&Vec::new()), Vec::new());
}

#[test]
fn sort_dedup_orders_by_line_then_column() {
    let raw = vec![
        range(at(1, 0), at(1, 1)),
        range(at(-1, 7), at(0, 1)),
        range(at(0, 3), at(0, 3)),
        range(at(0, 1), at(0, 9)),
        range(at(-1, 7), at(-1, 9)),
    ];
    assert_eq!(
        sort_dedup(&raw),
        vec![
            range(at(-1, 7), at(0, 1)),
            range(at(0, 1), at(0, 9)),
            range(at(0, 3), at(0, 3)),
            range(at(1, 0), at(1, 1)),
        ]
    );
}

#[test]
fn post_processing_cuts_unbalanced_brackets() {
    let term = term_with(&["(https://a.org/x(y)) z"], 1, 30);
    let search = RegexSearch::new("https://[^ ]+").unwrap();
    let found = term.regex_search_right(&search, at(0, 0), at(0, 29)).unwrap();
    assert_eq!(found, range(at(0, 1), at(0, 19)));
    assert_eq!(hint_post_processing(&term, &found), Some(range(at(0, 1), at(0, 18))));
}

#[test]
fn post_processing_cuts_trailing_delimiters() {
    let term = term_with(&["see https://a.org/x.,;:?!(['. ok"], 1, 40);
    let search = RegexSearch::new("https://[^ ]+").unwrap();
    let found = term.regex_search_right(&search, at(0, 0), at(0, 39)).unwrap();
    assert_eq!(found, range(at(0, 4), at(0, 28)));
    assert_eq!(hint_post_processing(&term, &found), Some(range(at(0, 4), at(0, 18))));
}

#[test]
fn post_processing_keeps_delimiters_before_a_cut_bracket() {
    let term = term_with(&["https://a.org.) x"], 1, 20);
    let search = RegexSearch::new("https://[^ ]+").unwrap();
    let found = term.regex_search_right(&search, at(0, 0), at(0, 19)).unwrap();
    assert_eq!(found, range(at(0, 0), at(0, 14)));
    // The bracket is cut; what stands before it stays.
    assert_eq!(hint_post_processing(&term, &found), Some(range(at(0, 0), at(0, 13))));
}

#[test]
fn post_processing_leaves_one_character_at_least() {
    let term = term_with(&["x ..."], 1, 6);
    let search = RegexSearch::new("\\.+").unwrap();
    let found = term.regex_search_right(&search, at(0, 0), at(0, 5)).unwrap();
    assert_eq!(found, range(at(0, 2), at(0, 4)));
    assert_eq!(hint_post_processing(&term, &found), Some(range(at(0, 2), at(0, 2))));
}

#[test]
fn post_processing_drops_a_match_that_starts_with_a_closing_bracket() {
    let term = term_with(&["x )abc"], 1, 8);
    let search = RegexSearch::new("\\)[a-z]+").unwrap();
    let found = term.regex_search_right(&search, at(0, 0), at(0, 7)).unwrap();
    assert_eq!(found, range(at(0, 2), at(0, 5)));
    assert_eq!(hint_post_processing(&term, &found), None);
}

#[test]
fn closed_bracket_does_not_result_in_infinite_iterator() {
    let term = term_with(&[" ) "], 1, 3);
    let search = RegexSearch::new("(.)").unwrap();
    let found = term.regex_search_right(&search, at(0, 0), at(0, 2)).unwrap();
    assert_eq!(found, range(at(0, 0), at(0, 0)));
    let matches = HintPostProcessor::new(&term, &search, range(at(0, 1), at(0, 1)))
        .collect(&term, &search);
    assert_eq!(matches.len(), 0);
    // The bracket is no match; the cells around it are.
    let all = HintPostProcessor::new(&term, &search, range(at(0, 0), at(0, 2)))
        .collect(&term, &search);
    assert_eq!(all, vec![range(at(0, 0), at(0, 0)), range(at(0, 2), at(0, 2))]);
}

#[test]
fn post_processor_finds_matches_behind_a_cut() {
    let term = term_with(&["ab)cd"], 1, 6);
    let search = RegexSearch::new("[a-z)]+").unwrap();
    let found = term.regex_search_right(&search, at(0, 0), at(0, 5)).unwrap();
    assert_eq!(found, range(at(0, 0), at(0, 4)));
    let mut processor = HintPostProcessor::new(&term, &search, found);
    assert_eq!(processor.next(&term, &search), Some(range(at(0, 0), at(0, 1))));
    assert_eq!(processor.next(&term, &search), Some(range(at(0, 3), at(0, 4))));
    assert_eq!(processor.next(&term, &search), None);
    assert_eq!(processor.next(&term, &search), None);
    assert_eq!(
        HintPostProcessor::new(&term, &search, found).collect(&term, &search),
        vec![range(at(0, 0), at(0, 1)), range(at(0, 3), at(0, 4))]
    );
}

#[test]
fn visible_regex_match_covers_entire_viewport() {
    let content = ["I", "am", "scrolled\r", "out", "foo", "foo", "foo", "I am out too"];
    let mut term = term_with(&content, 3, 14);
    // The viewport shows the three lines `foo`.
    term.scroll_display(Scroll::Delta(1));
    let search = RegexSearch::new("foo").unwrap();
    assert_eq!(
        visible_regex_match_iter(&term, &search),
        vec![range(at(-1, 0), at(-1, 2)), range(at(0, 0), at(0, 2)), range(at(1, 0), at(1, 2))]
    );
}

#[test]
fn visible_matches_reach_over_wrapped_lines() {
    let mut term = term_with(&["one", "abc\r", "def\r", "ghi", "two", "six"], 2, 3);
    // The viewport shows the lines `def` and `ghi`, in the middle of a
    // wrapped line.
    term.scroll_display(Scroll::Delta(2));
    assert_eq!(term.grid().display_offset(), 2);
    let search = RegexSearch::new("cdefgh").unwrap();
    assert_eq!(visible_regex_match_iter(&term, &search), vec![range(at(-3, 2), at(-1, 1))]);
    // A match that ends above the viewport is left out, and so is one that
    // starts below it.
    let above = RegexSearch::new("ab|one|two").unwrap();
    assert_eq!(visible_regex_match_iter(&term, &above), Vec::new());
    assert_eq!(MAX_SEARCH_LINES, 100);
}

#[test]
fn collect_unique_hyperlinks() {
    let mut term = term_with(&["000001122", "012320000"], 2, 9);
    // Hyperlinks by the digits: runs of one hyperlink, some of them twice.
    for line in 0..2 {
        for column in 0..9 {
            let c = term.grid().cell(at(line, column)).c;
            if c != '0' {
                term.grid_mut().set_cell(at(line, column), link_cell(c, &c.to_string()));
            }
        }
    }
    assert_eq!(
        visible_unique_hyperlinks_iter(&term),
        vec![
            range(at(0, 5), at(0, 6)),
            range(at(0, 7), at(0, 8)),
            range(at(1, 3), at(1, 3)),
        ]
    );
}

#[test]
fn hyperlink_runs_go_over_line_ends() {
    let mut term = term_with(&["ab", "cd"], 2, 2);
    term.grid_mut().set_cell(at(0, 1), link_cell('b', "x"));
    term.grid_mut().set_cell(at(1, 0), link_cell('c', "x"));
    term.grid_mut().set_cell(at(1, 1), link_cell('d', "y"));
    assert_eq!(
        visible_unique_hyperlinks_iter(&term),
        vec![range(at(0, 1), at(1, 0)), range(at(1, 1), at(1, 1))]
    );
    let none = term_with(&["ab"], 1, 2);
    assert_eq!(visible_unique_hyperlinks_iter(&none), Vec::new());
}

#[test]
fn hint_state_labels_the_matches() {
    let term = term_with(&["foo bar", "baz foo", "foo"], 3, 8);
    let mut state = HintState::new("abcd".into());
    assert!(!state.active());
    state.update_matches(&term);
    assert!(state.matches().is_empty());
    state.start(regex_hint("foo", false, false));
    assert!(state.active());
    state.update_matches(&term);
    assert_eq!(
        state.matches(),
        &vec![range(at(0, 0), at(0, 2)), range(at(1, 4), at(1, 6)), range(at(2, 0), at(2, 2))]
    );
    // The last match has the first label.
    assert_eq!(text(state.labels()), vec!["ca", "b", "a"]);
}

#[test]
fn hint_state_goes_out_of_use_without_a_match() {
    let term = term_with(&["foo bar"], 1, 8);
    let mut state = HintState::new("abcd".into());
    state.start(regex_hint("baz", false, false));
    state.update_matches(&term);
    assert!(!state.active());
    assert!(state.matches().is_empty());
    assert!(state.labels().is_empty());
    // A pattern that is no regular expression has no match.
    state.start(regex_hint("ba(", false, false));
    state.update_matches(&term);
    assert!(!state.active());
}

#[test]
fn keyboard_input_chooses_a_hint() {
    let term = term_with(&["foo bar", "baz foo", "foo"], 3, 8);
    let mut state = HintState::new("abcd".into());
    state.start(regex_hint("foo", false, false));
    state.update_matches(&term);
    // The first key of a label of two keys chooses nothing yet.
    assert!(state.keyboard_input(&term, 'c').is_none());
    state.update_matches(&term);
    assert_eq!(text(state.labels()), vec!["a", "", ""]);
    // Backspace takes the key back.
    assert!(state.keyboard_input(&term, '\x08').is_none());
    assert_eq!(text(state.labels()), vec!["ca", "b", "a"]);
    assert!(state.keyboard_input(&term, 'c').is_none());
    // A key that starts no label changes nothing.
    assert!(state.keyboard_input(&term, 'x').is_none());
    assert_eq!(text(state.labels()), vec!["a", "", ""]);
    let chosen = state.keyboard_input(&term, 'a').unwrap();
    assert_eq!(chosen.bounds(), &range(at(0, 0), at(0, 2)));
    assert_eq!(chosen.action(), &HintAction::Action(HintInternalAction::Copy));
    assert!(chosen.hyperlink().is_none());
    // The choice has ended.
    assert!(!state.active());
    assert!(state.matches().is_empty());
}

#[test]
fn keyboard_input_chooses_a_short_label_at_once() {
    let term = term_with(&["foo bar", "baz foo", "foo"], 3, 8);
    let mut state = HintState::new("abcd".into());
    state.start(regex_hint("foo", false, true));
    state.update_matches(&term);
    let chosen = state.keyboard_input(&term, 'b').unwrap();
    assert_eq!(chosen.bounds(), &range(at(1, 4), at(1, 6)));
    // A hint that persists stays in use.
    assert!(state.active());
    assert_eq!(text(state.labels()), vec!["ca", "b", "a"]);
    // Escape ends the choice.
    assert!(state.keyboard_input(&term, '\x1b').is_none());
    assert!(!state.active());
}

#[test]
fn hyperlinks_and_regex_matches_come_together() {
    let mut term = term_with(&["foo link", "foo"], 2, 8);
    for column in 4..8 {
        let c = term.grid().cell(at(0, column)).c;
        term.grid_mut().set_cell(at(0, column), link_cell(c, "target"));
    }
    let mut state = HintState::new("abcd".into());
    state.start(Hint {
        content: HintContent::new(Some(LazyRegex::new("foo|link".into())), true),
        action: HintAction::Command(Program::Just("open".into())),
        post_processing: true,
        persist: false,
        mouse: Some(HintMouse { enabled: true }),
    });
    state.update_matches(&term);
    // The hyperlink and the match at its place are one hint.
    assert_eq!(
        state.matches(),
        &vec![range(at(0, 0), at(0, 2)), range(at(0, 4), at(0, 7)), range(at(1, 0), at(1, 2))]
    );
    let chosen = state.keyboard_input(&term, 'b').unwrap();
    assert_eq!(chosen.bounds(), &range(at(0, 4), at(0, 7)));
    assert_eq!(chosen.hyperlink().map(|link| link.uri.as_str()), Some("https://target.org"));
    assert_eq!(chosen.action(), &HintAction::Command(Program::Just("open".into())));
}

#[test]
fn url_hint_finds_urls() {
    let hints = Hints::with_url_hint(Program::Just("xdg-open".into()));
    assert_eq!(hints.alphabet.as_str(), "jfkdls;ahgurieowpq");
    assert_eq!(hints.enabled.len(), 1);
    let term = term_with(&["see (https://example.org/a_(b)c), or", "mailto:x@y.z."], 2, 40);
    let mut state = HintState::new(hints.alphabet.as_str().into());
    let mut enabled = hints.enabled;
    state.start(enabled.remove(0));
    state.update_matches(&term);
    assert_eq!(
        state.matches(),
        &vec![range(at(0, 5), at(0, 30)), range(at(1, 0), at(1, 11))]
    );
    assert_eq!(text(state.labels()), vec!["f", "j"]);
}
