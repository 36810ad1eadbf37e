//! Regex search over the lines of the terminal.
//!
//! A wrapped line is searched as one text; a match never goes over the end
//! of a line that does not wrap. The cells that only fill the room of a wide
//! character are left out of the text.

use vstd::prelude::*;

use crate::cell::Cell;
use crate::grid::GridView;
use crate::index::{Column, Direction, Line, Point};
use crate::term::{Term, TermView};
use crate::text::{fitting_prefix, string_of, utf8_prefix_len};

verus! {

/// `Regex` of regex: a compiled regular expression, of which nothing is
/// seen here.
#[verifier::external_type_specification]
#[verifier::external_body]
pub struct ExRegex(regex::Regex);

/// `Error` of regex: why a pattern was not compiled, of which nothing is
/// seen here.
#[verifier::external_type_specification]
#[verifier::external_body]
pub struct ExRegexError(regex::Error);

/// Whether `pattern` is a regular expression that the regex engine accepts.
pub uninterp spec fn regex_is_valid(pattern: Seq<char>) -> bool;

/// The leftmost match of the regular expression `pattern` in `hay`, as the
/// regex engine finds it: the byte offsets in the UTF-8 encoding of `hay` at
/// which the match starts and ends.
pub uninterp spec fn regex_first_match(pattern: Seq<char>, hay: Seq<char>) -> Option<
    (usize, usize),
>;

/// Flags of the cells that only fill the room of a wide character.
pub const SPACERS: u16 = 0x0440;

/// The pattern is no regular expression, or too large a one.
#[derive(Debug, Clone, Copy, PartialEq, Eq, Structural)]
pub struct InvalidPattern;

/// A compiled regular expression.
///
/// The automaton is the one that the regex engine has compiled from the
/// pattern: [`RegexSearch::new`] makes both, and nothing changes them.
#[derive(Debug)]
pub struct RegexSearch {
    pattern: String,
    automaton: regex::Regex,
}

impl View for RegexSearch {
    type V = Seq<char>;

    /// The pattern that was compiled.
    closed spec fn view(&self) -> Seq<char> {
        self.pattern@
    }
}

/// A range of cells that matches, from `start` to `end`, both included.
#[derive(Debug, Clone, Copy, PartialEq, Eq, Structural)]
pub struct Match {
    pub start: Point,
    pub end: Point,
}

impl Match {
    pub fn new(start: Point, end: Point) -> (m: Match)
        ensures
            m.start == start,
            m.end == end,
    {
        Match { start, end }
    }

    /// The first cell of the match.
    pub fn start(&self) -> (p: Point)
        ensures
            p == self.start,
    {
        self.start
    }

    /// The last cell of the match.
    pub fn end(&self) -> (p: Point)
        ensures
            p == self.end,
    {
        self.end
    }
}

/// `Regex::new` of regex: compiles `pattern`. Whether it succeeds is what
/// [`regex_is_valid`] names.
#[verifier::external_body]
fn compile(pattern: &str) -> (r: Result<regex::Regex, regex::Error>)
    ensures
        r is Ok <==> regex_is_valid(pattern@),
{
    regex::Regex::new(pattern)
}

/// `Regex::find` of regex, on the automaton that was compiled from the
/// pattern of `search`: the leftmost match in `hay`, by the byte offsets of
/// its start and its end, which is what [`regex_first_match`] names. The
/// start is never behind the end.
#[verifier::external_body]
fn find_first(search: &RegexSearch, hay: &str) -> (m: Option<(usize, usize)>)
    ensures
        m == regex_first_match(search@, hay@),
        m matches Some((s, e)) ==> s <= e,
{
    search.automaton.find(hay).map(|m| (m.start(), m.end()))
}

/// The leftmost match of `pattern` in `hay`, by the indices of its first
/// character and of the character after its last. There is none where the
/// leftmost match is empty: the text behind an empty match is not searched.
pub open spec fn first_match_chars(pattern: Seq<char>, hay: Seq<char>) -> Option<(int, int)> {
    match regex_first_match(pattern, hay) {
        Some((s, e)) => {
            let a = utf8_prefix_len(hay, s as nat);
            let b = utf8_prefix_len(hay, e as nat);
            if a < b {
                Some((a as int, b as int))
            } else {
                None
            }
        },
        None => None,
    }
}

impl RegexSearch {
    /// Compiles `pattern`.
    pub fn new(pattern: &str) -> (r: Result<RegexSearch, InvalidPattern>)
        ensures
            r is Ok <==> regex_is_valid(pattern@),
            r matches Ok(search) ==> search@ == pattern@,
    {
        match compile(pattern) {
            Ok(automaton) => Ok(RegexSearch { pattern: pattern.to_owned(), automaton }),
            Err(_) => Err(InvalidPattern),
        }
    }

    /// The pattern that was compiled.
    pub fn pattern(&self) -> (p: &String)
        ensures
            p@ == self@,
    {
        &self.pattern
    }

    /// The leftmost match in `hay`, by the indices of its first character
    /// and of the character after its last; none where the leftmost match
    /// is empty, whatever follows it.
    pub fn first_match(&self, hay: &Vec<char>) -> (m: Option<(usize, usize)>)
        ensures
            match m {
                Some((a, b)) => first_match_chars(self@, hay@) == Some((a as int, b as int)) && a
                    < b <= hay@.len(),
                None => first_match_chars(self@, hay@) is None,
            },
    {
        let text = string_of(hay);
        match find_first(self, text.as_str()) {
            Some((s, e)) => {
                let a: usize = fitting_prefix(hay, s);
                let b: usize = fitting_prefix(hay, e);
                if a < b {
                    Some((a, b))
                } else {
                    None
                }
            },
            None => None,
        }
    }
}

/// Whether `cell` only fills the room of a wide character.
pub open spec fn is_spacer(cell: Cell) -> bool {
    cell.flags.has_any(SPACERS)
}

/// The characters of the cells `points`.
pub open spec fn chars_at(grid: GridView<Cell>, points: Seq<Point>) -> Seq<char> {
    points.map_values(|p: Point| grid.cell(p).c)
}

/// Whether `m` lies on the grid, its start not behind its end.
pub open spec fn match_on_grid(grid: GridView<Cell>, m: Match) -> bool {
    grid.has_point(m.start) && grid.has_point(m.end) && !m.end.spec_precedes(m.start)
}

/// The leftmost match in the text of the cells `points`, by its cells.
pub open spec fn segment_match(grid: GridView<Cell>, pattern: Seq<char>, points: Seq<Point>)
    -> Option<Match> {
    match first_match_chars(pattern, chars_at(grid, points)) {
        Some((a, b)) => Some(Match { start: points[a], end: points[b - 1] }),
        None => None,
    }
}

impl TermView {
    /// Whether the search may go from `cur` to `end`: both are in the
    /// columns, and `end` is not before `cur`.
    pub open spec fn search_range(self, cur: Point, end: Point) -> bool {
        cur.column.0 < self.grid.columns <= usize::MAX && end.column.0 < self.grid.columns
            && !end.spec_precedes(cur)
    }

    /// Whether a line's text ends with the cell `cur`.
    pub open spec fn line_ends_at(self, cur: Point) -> bool {
        cur.column.0 + 1 == self.grid.columns && !self.wraps(cur.line.0 as int)
    }

    /// The first match in the cells from `cur` to `end`, where `seen` are
    /// the cells of the current line that the search has passed.
    pub open spec fn first_match_from(
        self,
        pattern: Seq<char>,
        cur: Point,
        end: Point,
        seen: Seq<Point>,
    ) -> Option<Match>
        decreases end.line.0 - cur.line.0, self.grid.columns - cur.column.0,
        when self.search_range(cur, end)
    {
        let seen = if is_spacer(self.grid.cell(cur)) {
            seen
        } else {
            seen.push(cur)
        };
        if cur == end {
            segment_match(self.grid, pattern, seen)
        } else if self.line_ends_at(cur) {
            match segment_match(self.grid, pattern, seen) {
                Some(m) => Some(m),
                None => self.first_match_from(
                    pattern,
                    self.grid.next_point(cur),
                    end,
                    Seq::empty(),
                ),
            }
        } else {
            self.first_match_from(pattern, self.grid.next_point(cur), end, seen)
        }
    }

    /// The first match that starts at `start` or after it and ends at `end`
    /// or before it; none where `end` is before `start`.
    pub open spec fn regex_search_right(self, pattern: Seq<char>, start: Point, end: Point)
        -> Option<Match> {
        if end.spec_precedes(start) {
            None
        } else {
            self.first_match_from(pattern, start, end, Seq::empty())
        }
    }

    /// Whether the search goes on behind the match `m`, which was found from
    /// `cur` on: it ends before `end`.
    pub open spec fn goes_on_after(self, m: Match, cur: Point, end: Point) -> bool {
        m.end.column.0 < self.grid.columns && !m.end.spec_precedes(cur) && m.end.spec_precedes(
            end,
        )
    }

    /// The matches from `start` to `end` in reading order, each found
    /// behind the end of the one before it; none where `end` is before
    /// `start`.
    pub open spec fn matches_between(self, pattern: Seq<char>, start: Point, end: Point) -> Seq<
        Match,
    > {
        if end.spec_precedes(start) {
            Seq::empty()
        } else {
            self.matches_from(pattern, start, end)
        }
    }

    /// The matches from `cur` to `end` in reading order, each found behind
    /// the end of the one before it.
    pub open spec fn matches_from(self, pattern: Seq<char>, cur: Point, end: Point) -> Seq<Match>
        decreases end.line.0 - cur.line.0, self.grid.columns - cur.column.0,
        when self.search_range(cur, end)
    {
        match self.regex_search_right(pattern, cur, end) {
            None => Seq::empty(),
            Some(m) => if self.goes_on_after(m, cur, end) {
                seq![m] + self.matches_from(pattern, self.grid.next_point(m.end), end)
            } else {
                seq![m]
            },
        }
    }
}

/// What the search knows of the cells it has passed on the current line:
/// they are cells of the grid between `start` and `cur`, in reading order.
spec fn seen_in_order(grid: GridView<Cell>, seen: Seq<Point>, start: Point, cur: Point) -> bool {
    &&& forall|i: int|
        0 <= i < seen.len() ==> grid.has_point(#[trigger] seen[i]) && !seen[i].spec_precedes(start)
            && !cur.spec_precedes(seen[i])
    &&& forall|i: int, j: int|
        0 <= i < j < seen.len() ==> (#[trigger] seen[i]).spec_precedes(#[trigger] seen[j])
}

impl Term {
    /// The first match that starts at `start` or after it and ends at `end`
    /// or before it.
    pub fn regex_search_right(&self, search: &RegexSearch, start: Point, end: Point) -> (found:
        Option<Match>)
        requires
            self.wf(),
            self@.grid.has_point(start),
            self@.grid.has_point(end),
        ensures
            found == self@.regex_search_right(search@, start, end),
            found matches Some(m) ==> {
                &&& self@.grid.has_point(m.start)
                &&& self@.grid.has_point(m.end)
                &&& !m.start.spec_precedes(start)
                &&& !m.end.spec_precedes(m.start)
                &&& !end.spec_precedes(m.end)
            },
    {
        proof {
            self.lemma_wf();
        }
        if end.precedes(&start) {
            return None;
        }
        let columns: usize = self.grid().columns();
        let mut cur: Point = start;
        let mut seen: Vec<Point> = Vec::new();
        let mut hay: Vec<char> = Vec::new();
        loop
            invariant
                self.wf(),
                self@.wf(),
                columns == self@.grid.columns,
                self@.grid.has_point(cur),
                self@.grid.has_point(end),
                self@.grid.has_point(start),
                !end.spec_precedes(cur),
                !cur.spec_precedes(start),
                hay@ == chars_at(self@.grid, seen@),
                seen_in_order(self@.grid, seen@, start, cur),
                forall|i: int| 0 <= i < seen@.len() ==> (#[trigger] seen@[i]) != cur,
                self@.regex_search_right(search@, start, end) == self@.first_match_from(
                    search@,
                    cur,
                    end,
                    seen@,
                ),
            decreases end.line.0 - cur.line.0, columns - cur.column.0,
        {
            let cell = self.grid().cell(cur);
            let ghost before = seen@;
            if !cell.flags.intersects(SPACERS) {
                seen.push(cur);
                hay.push(cell.c);
                assert(hay@ =~= chars_at(self@.grid, seen@));
            }
            assert(seen_in_order(self@.grid, seen@, start, cur));
            let line_ends: bool = cur.column.0 + 1 == columns && !self.wraps(cur.line);
            let at_end: bool = cur.line.0 == end.line.0 && cur.column.0 == end.column.0;
            if at_end || line_ends {
                match search.first_match(&hay) {
                    Some((a, b)) => {
                        return Some(Match { start: seen[a], end: seen[b - 1] });
                    },
                    None => {},
                }
                if at_end {
                    return None;
                }
                seen = Vec::new();
                hay = Vec::new();
                assert(hay@ =~= chars_at(self@.grid, seen@));
            }
            match self.grid().next_point(cur) {
                Some(next) => {
                    cur = next;
                },
                None => {
                    return None;
                },
            }
        }
    }

    /// The matches from `start` to `end` in reading order, each found behind
    /// the end of the one before it.
    pub fn regex_matches(&self, search: &RegexSearch, start: Point, end: Point) -> (found: Vec<
        Match,
    >)
        requires
            self.wf(),
            self@.grid.has_point(start),
            self@.grid.has_point(end),
        ensures
            found@ == self@.matches_between(search@, start, end),
            forall|i: int|
                0 <= i < found@.len() ==> match_on_grid(self@.grid, #[trigger] found@[i])
                    && !found@[i].start.spec_precedes(start) && !end.spec_precedes(found@[i].end),
    {
        proof {
            self.lemma_wf();
        }
        let columns: usize = self.grid().columns();
        let mut found: Vec<Match> = Vec::new();
        if end.precedes(&start) {
            return found;
        }
        let mut cur: Point = start;
        loop
            invariant
                self.wf(),
                self@.wf(),
                columns == self@.grid.columns,
                self@.grid.has_point(cur),
                self@.grid.has_point(end),
                !end.spec_precedes(cur),
                !cur.spec_precedes(start),
                self@.matches_from(search@, start, end) == found@ + self@.matches_from(
                    search@,
                    cur,
                    end,
                ),
                forall|i: int|
                    0 <= i < found@.len() ==> match_on_grid(self@.grid, #[trigger] found@[i])
                        && !found@[i].start.spec_precedes(start) && !end.spec_precedes(
                        found@[i].end,
                    ),
            decreases end.line.0 - cur.line.0, columns - cur.column.0,
        {
            let ghost rest = self@.matches_from(search@, cur, end);
            match self.regex_search_right(search, cur, end) {
                None => {
                    assert(found@ + rest =~= found@);
                    return found;
                },
                Some(m) => {
                    let ghost before = found@;
                    found.push(m);
                    if m.end.precedes(&end) {
                        match self.grid().next_point(m.end) {
                            Some(next) => {
                                assert(before + (seq![m] + self@.matches_from(search@, next, end))
                                    =~= found@ + self@.matches_from(search@, next, end));
                                cur = next;
                            },
                            None => {
                                return found;
                            },
                        }
                    } else {
                        assert(before + seq![m] =~= found@);
                        return found;
                    }
                },
            }
        }
    }
}

/// The first match of `matches` that does not start before `origin`.
pub open spec fn first_from(matches: Seq<Match>, origin: Point) -> Option<Match>
    decreases matches.len(),
{
    if matches.len() == 0 {
        None
    } else if !matches[0].start.spec_precedes(origin) {
        Some(matches[0])
    } else {
        first_from(matches.drop_first(), origin)
    }
}

/// The last match of `matches` that does not start after `origin`.
pub open spec fn last_until(matches: Seq<Match>, origin: Point) -> Option<Match>
    decreases matches.len(),
{
    if matches.len() == 0 {
        None
    } else if !origin.spec_precedes(matches.last().start) {
        Some(matches.last())
    } else {
        last_until(matches.drop_last(), origin)
    }
}

impl TermView {
    /// The first line that a search from `origin` goes over: with a limit
    /// of lines, a search to the right starts where the wrapped line of
    /// `origin` starts, and a search to the left as many lines above the
    /// end of that wrapped line as the limit says; without a limit, the
    /// search goes over all lines.
    pub open spec fn search_first_line(
        self,
        origin: Point,
        direction: Direction,
        max_lines: Option<usize>,
    ) -> int {
        match (direction, max_lines) {
            (Direction::Right, Some(_)) => self.wrapped_line_start(origin.line.0 as int),
            (Direction::Left, Some(max)) => {
                let wanted = self.wrapped_line_end(origin.line.0 as int) - max;
                if wanted >= self.grid.topmost_line() {
                    wanted
                } else {
                    self.grid.topmost_line()
                }
            },
            (_, None) => self.grid.topmost_line(),
        }
    }

    /// The last line that a search from `origin` goes over.
    pub open spec fn search_last_line(
        self,
        origin: Point,
        direction: Direction,
        max_lines: Option<usize>,
    ) -> int {
        match (direction, max_lines) {
            (Direction::Right, Some(max)) => {
                let wanted = self.wrapped_line_start(origin.line.0 as int) + max;
                if wanted <= self.grid.bottommost_line() {
                    wanted
                } else {
                    self.grid.bottommost_line()
                }
            },
            (Direction::Left, Some(_)) => self.wrapped_line_end(origin.line.0 as int),
            (_, None) => self.grid.bottommost_line(),
        }
    }

    /// The matches on the lines that a search from `origin` goes over.
    pub open spec fn search_candidates(
        self,
        pattern: Seq<char>,
        origin: Point,
        direction: Direction,
        max_lines: Option<usize>,
    ) -> Seq<Match> {
        self.matches_from(
            pattern,
            Point {
                line: Line(self.search_first_line(origin, direction, max_lines) as i32),
                column: Column(0),
            },
            Point {
                line: Line(self.search_last_line(origin, direction, max_lines) as i32),
                column: Column((self.grid.columns - 1) as usize),
            },
        )
    }

    /// The match that a search from `origin` finds: to the right the first
    /// match that starts at `origin` or behind it, to the left the last
    /// that starts at `origin` or before it. Where there is none, the search
    /// goes round: it finds the first match of all to the right, the last
    /// to the left.
    pub open spec fn search_next(
        self,
        pattern: Seq<char>,
        origin: Point,
        direction: Direction,
        max_lines: Option<usize>,
    ) -> Option<Match> {
        let candidates = self.search_candidates(pattern, origin, direction, max_lines);
        if candidates.len() == 0 {
            None
        } else {
            match direction {
                Direction::Right => match first_from(candidates, origin) {
                    Some(m) => Some(m),
                    None => Some(candidates[0]),
                },
                Direction::Left => match last_until(candidates, origin) {
                    Some(m) => Some(m),
                    None => Some(candidates.last()),
                },
            }
        }
    }
}

impl Term {
    /// The match that a search from `origin` in the direction `direction`
    /// finds, on all lines or, with `max_lines`, on no more than that many
    /// lines from the line of `origin` on.
    pub fn search_next(
        &self,
        search: &RegexSearch,
        origin: Point,
        direction: Direction,
        max_lines: Option<usize>,
    ) -> (found: Option<Match>)
        requires
            self.wf(),
            self@.grid.has_point(origin),
        ensures
            found == self@.search_next(search@, origin, direction, max_lines),
            found matches Some(m) ==> match_on_grid(self@.grid, m),
    {
        proof {
            self.lemma_wf();
        }
        let top: i32 = self.topmost_line().0;
        let bottom: i32 = self.bottommost_line().0;
        let (first_line, last_line): (i32, i32) = match (direction, max_lines) {
            (Direction::Right, Some(max)) => {
                let start: i32 = self.line_search_left(origin).line.0;
                let wanted: i128 = start as i128 + max as i128;
                (
                    start,
                    if wanted <= bottom as i128 {
                        wanted as i32
                    } else {
                        bottom
                    },
                )
            },
            (Direction::Left, Some(max)) => {
                let end: i32 = self.line_search_right(origin).line.0;
                let wanted: i128 = end as i128 - max as i128;
                (
                    if wanted >= top as i128 {
                        wanted as i32
                    } else {
                        top
                    },
                    end,
                )
            },
            (_, None) => (top, bottom),
        };
        let from: Point = Point { line: Line(first_line), column: Column(0) };
        let to: Point = Point { line: Line(last_line), column: self.last_column() };
        let candidates: Vec<Match> = self.regex_matches(search, from, to);
        let n: usize = candidates.len();
        if n == 0 {
            return None;
        }
        match direction {
            Direction::Right => {
                let mut i: usize = 0;
                assert(candidates@.skip(0) =~= candidates@);
                while i < n
                    invariant
                        i <= n,
                        n == candidates@.len(),
                        n > 0,
                        direction == Direction::Right,
                        candidates@ == self@.search_candidates(
                            search@,
                            origin,
                            direction,
                            max_lines,
                        ),
                        first_from(candidates@, origin) == first_from(
                            candidates@.skip(i as int),
                            origin,
                        ),
                        forall|k: int|
                            0 <= k < candidates@.len() ==> match_on_grid(
                                self@.grid,
                                #[trigger] candidates@[k],
                            ),
                    decreases n - i,
                {
                    assert(candidates@.skip(i as int)[0] == candidates@[i as int]);
                    if !candidates[i].start.precedes(&origin) {
                        return Some(candidates[i]);
                    }
                    assert(candidates@.skip(i as int).drop_first() =~= candidates@.skip(i + 1));
                    i += 1;
                }
                Some(candidates[0])
            },
            Direction::Left => {
                let mut end: usize = n;
                assert(candidates@.take(n as int) =~= candidates@);
                while end > 0
                    invariant
                        end <= n,
                        n == candidates@.len(),
                        n > 0,
                        direction == Direction::Left,
                        candidates@ == self@.search_candidates(
                            search@,
                            origin,
                            direction,
                            max_lines,
                        ),
                        last_until(candidates@, origin) == last_until(
                            candidates@.take(end as int),
                            origin,
                        ),
                        forall|k: int|
                            0 <= k < candidates@.len() ==> match_on_grid(
                                self@.grid,
                                #[trigger] candidates@[k],
                            ),
                    decreases end,
                {
                    assert(candidates@.take(end as int).last() == candidates@[end - 1]);
                    if !origin.precedes(&candidates[end - 1].start) {
                        return Some(candidates[end - 1]);
                    }
                    assert(candidates@.take(end as int).drop_last() =~= candidates@.take(end - 1));
                    end -= 1;
                }
                Some(candidates[n - 1])
            },
        }
    }

    /// Scrolls the viewport.
    pub fn scroll_display(&mut self, scroll: crate::grid::Scroll)
        requires
            old(self).wf(),
        ensures
            final(self).wf(),
            final(self)@ == (TermView {
                grid: GridView {
                    display_offset: old(self)@.grid.scrolled_display(scroll),
                    ..old(self)@.grid
                },
                ..old(self)@
            }),
    {
        self.grid_mut().scroll_display(scroll);
    }
}

} // verus!
