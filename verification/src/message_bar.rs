//! Messages shown in a bar at the bottom of the window.

use std::collections::VecDeque;
use vstd::prelude::*;

use crate::text::{
    chars_of, fitting_prefix, is_whitespace, is_whitespace_spec, line_views, string_views,
    strings_of, utf8_prefix_len,
};
use crate::width::{char_width, unicode_width};

verus! {

/// Text of the button that closes the message.
pub const CLOSE_BUTTON_TEXT: &'static str = "[X]";

/// Columns kept free between the first line's text and the close button.
pub const CLOSE_BUTTON_PADDING: usize = 1;

/// Lines of the terminal that a message leaves free.
pub const MIN_FREE_LINES: usize = 3;

/// Replaces the last line of a message that does not fit.
pub const TRUNCATED_MESSAGE: &'static str = "[MESSAGE TRUNCATED]";

/// Purpose of a message.
#[derive(Debug, Eq, PartialEq, Clone, Copy, Structural)]
pub enum MessageType {
    /// The message reports an error.
    Error,
    /// The message is a warning.
    Warning,
}

/// A message for the message bar.
#[derive(Debug, Clone)]
pub struct Message {
    text: String,
    ty: MessageType,
    target: Option<String>,
}

/// What a [`Message`] holds.
pub struct MessageView {
    pub text: Seq<char>,
    pub ty: MessageType,
    pub target: Option<Seq<char>>,
}

impl View for Message {
    type V = MessageView;

    closed spec fn view(&self) -> MessageView {
        MessageView {
            text: self.text@,
            ty: self.ty,
            target: match self.target {
                Some(target) => Some(target@),
                None => None,
            },
        }
    }
}

/// The characters of the close button.
pub open spec fn close_button() -> Seq<char> {
    seq!['[', 'X', ']']
}

/// The characters of the line that stands for the lines cut off.
pub open spec fn truncated_message() -> Seq<char> {
    seq![
        '[', 'M', 'E', 'S', 'S', 'A', 'G', 'E', ' ', 'T', 'R', 'U', 'N', 'C', 'A', 'T', 'E', 'D',
        ']',
    ]
}

/// Number of whitespace characters at the start of `s`.
pub open spec fn leading_whitespace(s: Seq<char>) -> nat
    decreases s.len(),
{
    if s.len() == 0 || !is_whitespace_spec(s[0]) {
        0
    } else {
        1 + leading_whitespace(s.drop_first())
    }
}

/// Length of `s` without the whitespace characters at its end.
pub open spec fn trimmed_end(s: Seq<char>) -> nat
    decreases s.len(),
{
    if s.len() == 0 || !is_whitespace_spec(s.last()) {
        s.len()
    } else {
        trimmed_end(s.drop_last())
    }
}

/// `s` without the whitespace at its start and at its end.
pub open spec fn trimmed(s: Seq<char>) -> Seq<char> {
    if leading_whitespace(s) >= trimmed_end(s) {
        Seq::empty()
    } else {
        s.subrange(leading_whitespace(s) as int, trimmed_end(s) as int)
    }
}

/// Index of the last whitespace character of `line`.
pub open spec fn last_whitespace(line: Seq<char>) -> Option<int>
    decreases line.len(),
{
    if line.len() == 0 {
        None
    } else if is_whitespace_spec(line.last()) {
        Some(line.len() - 1)
    } else {
        last_whitespace(line.drop_last())
    }
}

/// `text` followed by the spaces that bring it to `num_cols` characters.
pub open spec fn padded(text: Seq<char>, num_cols: nat) -> Seq<char> {
    if text.len() >= num_cols {
        text
    } else {
        text + Seq::new((num_cols - text.len()) as nat, |i: int| ' ')
    }
}

/// State of the line breaking: the finished lines, the line being filled,
/// and the columns counted for it.
pub struct WrapState {
    pub lines: Seq<Seq<char>>,
    pub line: Seq<char>,
    pub line_len: nat,
}

/// Whether the line being filled ends before `c`: at a line feed, when it is
/// full, or, on the first line, when only the room for the close button is
/// left.
pub open spec fn breaks_before(st: WrapState, c: char, num_cols: nat) -> bool {
    ||| c == '\n'
    ||| st.line_len == num_cols
    ||| (st.lines.len() == 0 && num_cols >= 3 && st.line_len == if num_cols >= 4 {
        num_cols - 4
    } else {
        0
    })
}

/// Column width that the line breaking counts for `c`.
pub open spec fn counted_width(c: char) -> nat {
    match unicode_width(c) {
        Some(w) => w as nat,
        None => 0,
    }
}

/// The state after the character `c`.
///
/// A line that ends is cut at its last whitespace, unless `c` is whitespace
/// itself; what followed that whitespace starts the next line. Whitespace at
/// a break is dropped. A character two columns wide is followed by a space.
pub open spec fn wrap_step(st: WrapState, c: char, num_cols: nat) -> WrapState {
    let breaks = breaks_before(st, c, num_cols);
    let cut = if is_whitespace_spec(c) {
        None
    } else {
        last_whitespace(st.line)
    };
    let begun = if !breaks {
        st
    } else {
        match cut {
            Some(i) => WrapState {
                lines: st.lines.push(padded(st.line.subrange(0, i), num_cols)),
                line: st.line.subrange(i + 1, st.line.len() as int),
                line_len: (st.line.len() - i - 1) as nat,
            },
            None => WrapState {
                lines: st.lines.push(padded(st.line, num_cols)),
                line: Seq::empty(),
                line_len: 0,
            },
        }
    };
    if breaks && is_whitespace_spec(c) {
        begun
    } else {
        WrapState {
            lines: begun.lines,
            line: if counted_width(c) == 2 {
                begun.line.push(c).push(' ')
            } else {
                begun.line.push(c)
            },
            line_len: begun.line_len + counted_width(c),
        }
    }
}

/// The state after all of `text`.
pub open spec fn wrap_all(text: Seq<char>, num_cols: nat) -> WrapState
    decreases text.len(),
{
    if text.len() == 0 {
        WrapState { lines: Seq::empty(), line: Seq::empty(), line_len: 0 }
    } else {
        wrap_step(wrap_all(text.drop_last(), num_cols), text.last(), num_cols)
    }
}

/// The lines of `text` broken to `num_cols` columns, each padded.
pub open spec fn wrapped_lines(text: Seq<char>, num_cols: nat) -> Seq<Seq<char>> {
    let st = wrap_all(text, num_cols);
    st.lines.push(padded(st.line, num_cols))
}

/// At most `max_lines` of `lines`; where lines are cut off and the notice
/// fits in `num_cols` columns, the last line kept is the notice.
pub open spec fn limited_lines(lines: Seq<Seq<char>>, num_cols: nat, max_lines: nat) -> Seq<
    Seq<char>,
> {
    if lines.len() > max_lines {
        let kept = lines.subrange(0, max_lines as int);
        if truncated_message().len() <= num_cols && max_lines > 0 {
            kept.update(max_lines - 1, padded(truncated_message(), num_cols))
        } else {
            kept
        }
    } else {
        lines
    }
}

/// `lines` with the close button at the end of the first line, where the
/// button fits in `num_cols` columns. The first line keeps the characters
/// that fit in the bytes before the button.
pub open spec fn with_close_button(lines: Seq<Seq<char>>, num_cols: nat) -> Seq<Seq<char>> {
    if close_button().len() <= num_cols && lines.len() > 0 {
        let room = (num_cols - close_button().len()) as nat;
        lines.update(
            0,
            lines[0].subrange(0, utf8_prefix_len(lines[0], room) as int) + close_button(),
        )
    } else {
        lines
    }
}

/// The lines in which a message of text `text` is shown on a terminal of
/// `num_cols` columns and `total_lines` lines.
pub open spec fn message_lines(text: Seq<char>, num_cols: nat, total_lines: nat) -> Seq<
    Seq<char>,
> {
    let max_lines = if total_lines >= MIN_FREE_LINES {
        (total_lines - MIN_FREE_LINES) as nat
    } else {
        0
    };
    with_close_button(
        limited_lines(wrapped_lines(trimmed(text), num_cols), num_cols, max_lines),
        num_cols,
    )
}

proof fn lemma_leading_whitespace_bound(s: Seq<char>)
    ensures
        leading_whitespace(s) <= s.len(),
    decreases s.len(),
{
    if s.len() != 0 && is_whitespace_spec(s[0]) {
        lemma_leading_whitespace_bound(s.drop_first());
    }
}

proof fn lemma_trimmed_end_bound(s: Seq<char>)
    ensures
        trimmed_end(s) <= s.len(),
    decreases s.len(),
{
    if s.len() != 0 && is_whitespace_spec(s.last()) {
        lemma_trimmed_end_bound(s.drop_last());
    }
}

/// `text` without the whitespace at its start and at its end.
fn trim(text: &Vec<char>) -> (out: Vec<char>)
    ensures
        out@ == trimmed(text@),
{
    let n: usize = text.len();
    let mut start: usize = 0;
    assert(text@.skip(0) =~= text@);
    assert(text@.take(n as int) =~= text@);
    while start < n && is_whitespace(text[start])
        invariant
            n == text@.len(),
            start <= n,
            leading_whitespace(text@) == start + leading_whitespace(text@.skip(start as int)),
        decreases n - start,
    {
        assert(text@.skip(start as int).drop_first() =~= text@.skip(start + 1));
        start += 1;
    }
    assert(leading_whitespace(text@) == start) by {
        if start < n {
            assert(text@.skip(start as int)[0] == text@[start as int]);
        }
    }
    let mut end: usize = n;
    while end > 0 && is_whitespace(text[end - 1])
        invariant
            n == text@.len(),
            end <= n,
            trimmed_end(text@) == trimmed_end(text@.take(end as int)),
        decreases end,
    {
        assert(text@.take(end as int).drop_last() =~= text@.take(end - 1));
        end -= 1;
    }
    assert(trimmed_end(text@) == end) by {
        assert(text@.take(n as int) =~= text@);
        if end > 0 {
            assert(text@.take(end as int).last() == text@[end - 1]);
        }
    }
    let mut out: Vec<char> = Vec::new();
    if start < end {
        let mut i: usize = start;
        while i < end
            invariant
                start <= i <= end <= n,
                n == text@.len(),
                out@ == text@.subrange(start as int, i as int),
            decreases end - i,
        {
            out.push(text[i]);
            i += 1;
            assert(text@.subrange(start as int, i as int) =~= text@.subrange(
                start as int,
                i - 1,
            ).push(text@[i - 1]));
        }
    }
    out
}

/// Index of the last whitespace character of `line`.
fn find_last_whitespace(line: &Vec<char>) -> (found: Option<usize>)
    ensures
        match found {
            Some(i) => last_whitespace(line@) == Some(i as int) && i < line@.len(),
            None => last_whitespace(line@) is None,
        },
{
    let mut end: usize = line.len();
    assert(line@.take(end as int) =~= line@);
    while end > 0
        invariant
            end <= line@.len(),
            last_whitespace(line@) == last_whitespace(line@.take(end as int)),
        decreases end,
    {
        assert(line@.take(end as int).last() == line@[end - 1]);
        if is_whitespace(line[end - 1]) {
            return Some(end - 1);
        }
        assert(line@.take(end as int).drop_last() =~= line@.take(end - 1));
        end -= 1;
    }
    assert(line@.take(line@.len() as int) =~= line@);
    None
}

/// The characters `line[from..to]`.
fn copy_range(line: &Vec<char>, from: usize, to: usize) -> (out: Vec<char>)
    requires
        from <= to <= line@.len(),
    ensures
        out@ == line@.subrange(from as int, to as int),
{
    let mut out: Vec<char> = Vec::new();
    let mut i: usize = from;
    while i < to
        invariant
            from <= i <= to <= line@.len(),
            out@ == line@.subrange(from as int, i as int),
        decreases to - i,
    {
        out.push(line[i]);
        i += 1;
        assert(line@.subrange(from as int, i as int) =~= line@.subrange(from as int, i - 1).push(
            line@[i - 1],
        ));
    }
    out
}

impl Message {
    /// Creates a message without a target.
    pub fn new(text: String, ty: MessageType) -> (m: Message)
        ensures
            m@.text == text@,
            m@.ty == ty,
            m@.target is None,
    {
        Message { text, ty, target: None }
    }

    /// The lines in which the message is shown on a terminal of `num_cols`
    /// columns and `total_lines` lines: the text without surrounding
    /// whitespace, broken at word boundaries where it can be, cut to the
    /// lines that may be used, with the close button on the first line.
    pub fn text(&self, num_cols: usize, total_lines: usize) -> (lines: Vec<String>)
        requires
            3 * self@.text.len() <= usize::MAX,
        ensures
            string_views(lines@) == message_lines(self@.text, num_cols as nat, total_lines as nat),
    {
        let chars = chars_of(self.text.as_str());
        let shown = Self::text_lines(&chars, num_cols, total_lines);
        strings_of(&shown)
    }

    /// One step of the line breaking: takes the state before the character
    /// `c` and gives the state after it.
    fn wrap_char(
        lines: Vec<Vec<char>>,
        line: Vec<char>,
        line_len: usize,
        c: char,
        num_cols: usize,
    ) -> (next: (Vec<Vec<char>>, Vec<char>, usize))
        requires
            line_len + 3 <= usize::MAX,
            line@.len() + 3 <= usize::MAX,
        ensures
            (WrapState { lines: line_views(next.0@), line: next.1@, line_len: next.2 as nat })
                == wrap_step(
                (WrapState { lines: line_views(lines@), line: line@, line_len: line_len as nat }),
                c,
                num_cols as nat,
            ),
            next.2 <= line_len + 3 || next.2 <= line@.len() + 3,
            next.1@.len() <= line@.len() + 2,
    {
        let mut lines = lines;
        let mut line = line;
        let mut line_len = line_len;
        let first_line_room: usize = if num_cols >= 4 {
            num_cols - 4
        } else {
            0
        };
        let breaks: bool = c == '\n' || line_len == num_cols || (lines.len() == 0 && num_cols
            >= 3 && line_len == first_line_room);
        let blank: bool = is_whitespace(c);
        if breaks {
            let cut: Option<usize> = if blank {
                None
            } else {
                find_last_whitespace(&line)
            };
            let mut next_line: Vec<char> = Vec::new();
            match cut {
                Some(at) => {
                    next_line = copy_range(&line, at + 1, line.len());
                    line = copy_range(&line, 0, at);
                },
                None => {},
            }
            let done = Self::pad_chars(line, num_cols);
            let ghost before = lines@;
            lines.push(done);
            assert(line_views(lines@) =~= line_views(before).push(done@));
            line = next_line;
            line_len = line.len();
        }
        if !(breaks && blank) {
            let width: usize = match char_width(c) {
                Some(w) => w,
                None => 0,
            };
            line.push(c);
            if width == 2 {
                line.push(' ');
            }
            line_len += width;
        }
        (lines, line, line_len)
    }

    /// The lines of [`Message::text`], for the characters `text`.
    pub fn text_lines(text: &Vec<char>, num_cols: usize, total_lines: usize) -> (lines: Vec<
        Vec<char>,
    >)
        requires
            3 * text@.len() <= usize::MAX,
        ensures
            line_views(lines@) == message_lines(text@, num_cols as nat, total_lines as nat),
    {
        let max_lines: usize = if total_lines >= MIN_FREE_LINES {
            total_lines - MIN_FREE_LINES
        } else {
            0
        };
        let button_len: usize = 3;
        let body = trim(text);
        proof {
            lemma_leading_whitespace_bound(text@);
            lemma_trimmed_end_bound(text@);
        }

        let mut lines: Vec<Vec<char>> = Vec::new();
        let mut line: Vec<char> = Vec::new();
        let mut line_len: usize = 0;
        let mut i: usize = 0;
        assert(line_views(lines@) =~= Seq::<Seq<char>>::empty());
        while i < body.len()
            invariant
                i <= body@.len(),
                3 * body@.len() <= usize::MAX,
                wrap_all(body@.take(i as int), num_cols as nat) == (WrapState {
                    lines: line_views(lines@),
                    line: line@,
                    line_len: line_len as nat,
                }),
                line_len <= 3 * i,
                line@.len() <= 2 * i,
            decreases body@.len() - i,
        {
            let c: char = body[i];
            proof {
                assert(body@.take(i + 1).drop_last() =~= body@.take(i as int));
                assert(body@.take(i + 1).last() == c);
            }
            let next = Self::wrap_char(lines, line, line_len, c, num_cols);
            lines = next.0;
            line = next.1;
            line_len = next.2;
            i += 1;
        }
        assert(body@.take(body@.len() as int) =~= body@);
        let last = Self::pad_chars(line, num_cols);
        let ghost before = lines@;
        lines.push(last);
        assert(line_views(lines@) =~= line_views(before).push(last@));
        assert(line_views(lines@) == wrapped_lines(body@, num_cols as nat));

        if lines.len() > max_lines {
            let ghost full = lines@;
            lines.truncate(max_lines);
            assert(line_views(lines@) =~= line_views(full).subrange(0, max_lines as int));
            if 19 <= num_cols && max_lines > 0 {
                let notice = Self::pad_chars(Self::truncated_chars(), num_cols);
                let ghost kept = lines@;
                lines[max_lines - 1] = notice;
                assert(line_views(lines@) =~= line_views(kept).update(max_lines - 1, notice@));
            }
        }
        if button_len <= num_cols && lines.len() > 0 {
            let keep: usize = fitting_prefix(&lines[0], num_cols - button_len);
            let mut first = copy_range(&lines[0], 0, keep);
            first.push('[');
            first.push('X');
            first.push(']');
            assert(first@ =~= lines@[0]@.subrange(0, keep as int) + close_button());
            let ghost kept = lines@;
            lines[0] = first;
            assert(line_views(lines@) =~= line_views(kept).update(0, first@));
        }
        lines
    }

    /// The characters of the notice that stands for the lines cut off.
    fn truncated_chars() -> (out: Vec<char>)
        ensures
            out@ == truncated_message(),
    {
        let out = chars_of(TRUNCATED_MESSAGE);
        proof {
            reveal_strlit("[MESSAGE TRUNCATED]");
            assert(out@ =~= truncated_message());
        }
        out
    }

    /// Purpose of the message.
    pub fn ty(&self) -> (ty: MessageType)
        ensures
            ty == self@.ty,
    {
        self.ty
    }

    /// What the message is about, if it was set.
    pub fn target(&self) -> (target: Option<&String>)
        ensures
            match target {
                Some(t) => self@.target == Some(t@),
                None => self@.target is None,
            },
    {
        self.target.as_ref()
    }

    /// Sets what the message is about.
    pub fn set_target(&mut self, target: String)
        ensures
            final(self)@.target == Some(target@),
            final(self)@.text == old(self)@.text,
            final(self)@.ty == old(self)@.ty,
    {
        self.target = Some(target);
    }

    /// `text` followed by the spaces that bring it to `num_cols` characters.
    pub fn pad_text(text: String, num_cols: usize) -> (out: String)
        ensures
            out@ == padded(text@, num_cols as nat),
    {
        let chars = chars_of(text.as_str());
        let out = Self::pad_chars(chars, num_cols);
        crate::text::string_of(&out)
    }

    /// `text` followed by the spaces that bring it to `num_cols` characters.
    fn pad_chars(text: Vec<char>, num_cols: usize) -> (out: Vec<char>)
        ensures
            out@ == padded(text@, num_cols as nat),
    {
        let mut out = text;
        let ghost start = out@;
        while out.len() < num_cols
            invariant
                start.len() <= out@.len(),
                out@.len() <= num_cols || out@ == start,
                out@ =~= start + Seq::new((out@.len() - start.len()) as nat, |i: int| ' '),
            decreases num_cols - out@.len(),
        {
            out.push(' ');
        }
        proof {
            if start.len() >= num_cols {
                assert(out@ =~= start);
            }
        }
        out
    }
}

impl Message {
    /// Whether two messages have the same text, purpose and target.
    pub fn same_as(&self, other: &Message) -> (r: bool)
        ensures
            r == (self@ == other@),
    {
        let same_target: bool = match (&self.target, &other.target) {
            (Some(a), Some(b)) => *a == *b,
            (None, None) => true,
            _ => false,
        };
        let same_ty: bool = match (self.ty, other.ty) {
            (MessageType::Error, MessageType::Error) => true,
            (MessageType::Warning, MessageType::Warning) => true,
            _ => false,
        };
        self.text == other.text && same_ty && same_target
    }
}

/// The views of `messages`.
pub open spec fn message_views(messages: Seq<Message>) -> Seq<MessageView> {
    messages.map_values(|m: Message| m@)
}

/// `messages` without the messages that equal `message`.
pub open spec fn without(messages: Seq<MessageView>, message: MessageView) -> Seq<MessageView>
    decreases messages.len(),
{
    if messages.len() == 0 {
        Seq::empty()
    } else if messages.last() == message {
        without(messages.drop_last(), message)
    } else {
        without(messages.drop_last(), message).push(messages.last())
    }
}

/// The queue after its first message was dealt with: that message and the
/// messages that equal it are gone.
pub open spec fn popped(messages: Seq<MessageView>) -> Seq<MessageView> {
    if messages.len() == 0 {
        messages
    } else {
        without(messages.drop_first(), messages[0])
    }
}

/// No message that equals `message` is left once those messages are taken
/// out, and every other message stays.
pub proof fn law_without(messages: Seq<MessageView>, message: MessageView)
    ensures
        !without(messages, message).contains(message),
        forall|m: MessageView|
            m != message ==> (#[trigger] without(messages, message).contains(m)
                <==> messages.contains(m)),
    decreases messages.len(),
{
    let out = without(messages, message);
    if messages.len() > 0 {
        let rest = messages.drop_last();
        law_without(rest, message);
        let inner = without(rest, message);
        if out.contains(message) {
            let i = choose|i: int| 0 <= i < out.len() && out[i] == message;
            if messages.last() != message && i < inner.len() {
                assert(inner[i] == message);
                assert(inner.contains(message));
            } else if messages.last() == message {
                assert(inner.contains(message));
            }
        }
        assert forall|m: MessageView| m != message implies (#[trigger] out.contains(m)
            <==> messages.contains(m)) by {
            if out.contains(m) {
                let i = choose|i: int| 0 <= i < out.len() && out[i] == m;
                if messages.last() != message && i == inner.len() {
                    assert(messages[messages.len() - 1] == m);
                } else {
                    assert(inner[i] == m);
                    assert(inner.contains(m));
                    let k = choose|k: int| 0 <= k < rest.len() && rest[k] == m;
                    assert(messages[k] == m);
                }
            }
            if messages.contains(m) {
                let k = choose|k: int| 0 <= k < messages.len() && messages[k] == m;
                if k == messages.len() - 1 {
                    assert(out[out.len() - 1] == m);
                } else {
                    assert(rest[k] == m);
                    assert(rest.contains(m));
                    assert(inner.contains(m));
                    let i = choose|i: int| 0 <= i < inner.len() && inner[i] == m;
                    assert(out[i] == m);
                }
            }
        }
    }
}

/// The messages that wait to be shown, the one that is shown first.
#[derive(Debug)]
pub struct MessageBuffer {
    messages: VecDeque<Message>,
}

impl View for MessageBuffer {
    type V = Seq<MessageView>;

    closed spec fn view(&self) -> Seq<MessageView> {
        message_views(self.messages@)
    }
}

impl MessageBuffer {
    /// A buffer without messages.
    pub fn new() -> (buffer: MessageBuffer)
        ensures
            buffer@ == Seq::<MessageView>::empty(),
    {
        let buffer = MessageBuffer { messages: VecDeque::new() };
        assert(buffer@ =~= Seq::<MessageView>::empty());
        buffer
    }

    /// Whether no message waits.
    pub fn is_empty(&self) -> (r: bool)
        ensures
            r == (self@.len() == 0),
    {
        self.messages.len() == 0
    }

    /// The message that is shown.
    pub fn message(&self) -> (message: Option<&Message>)
        ensures
            match message {
                Some(m) => self@.len() > 0 && m@ == self@[0],
                None => self@.len() == 0,
            },
    {
        if self.messages.len() > 0 {
            Some(&self.messages[0])
        } else {
            None
        }
    }

    /// Takes the message that is shown off the queue, and with it every
    /// message that equals it.
    pub fn pop(&mut self)
        ensures
            final(self)@ == popped(old(self)@),
    {
        let shown: Message = match self.messages.pop_front() {
            Some(message) => message,
            None => {
                return ;
            },
        };
        let ghost raw = self.messages@;
        assert(raw =~= old(self).messages@.drop_first());
        assert(message_views(raw) =~= old(self)@.drop_first());
        let mut kept: VecDeque<Message> = VecDeque::new();
        let ghost mut done: int = 0;
        assert(message_views(raw.take(0)) =~= Seq::<MessageView>::empty());
        assert(message_views(kept@) =~= Seq::<MessageView>::empty());
        assert(raw.skip(0) =~= raw);
        loop
            invariant
                0 <= done <= raw.len(),
                self.messages@ == raw.skip(done),
                message_views(kept@) == without(message_views(raw.take(done)), shown@),
                shown@ == old(self)@[0],
                old(self)@.len() > 0,
                message_views(raw) == old(self)@.drop_first(),
            decreases raw.len() - done,
        {
            let ghost before = kept@;
            match self.messages.pop_front() {
                Some(message) => {
                    proof {
                        assert(message == raw.skip(done)[0]);
                        assert(message == raw[done]);
                        assert(message_views(raw.take(done + 1)).drop_last() =~= message_views(
                            raw.take(done),
                        ));
                        assert(message_views(raw.take(done + 1)).last() == message@);
                        assert(self.messages@ =~= raw.skip(done + 1));
                    }
                    if !message.same_as(&shown) {
                        kept.push_back(message);
                        assert(message_views(kept@) =~= message_views(before).push(message@));
                    }
                    proof {
                        done = done + 1;
                    }
                },
                None => {
                    assert(raw.take(done) =~= raw);
                    self.messages = kept;
                    return ;
                },
            }
        }
    }

    /// Queues `message` behind the messages that wait.
    pub fn push(&mut self, message: Message)
        ensures
            final(self)@ == old(self)@.push(message@),
    {
        let ghost before = self.messages@;
        self.messages.push_back(message);
        assert(message_views(self.messages@) =~= message_views(before).push(message@));
    }

    /// Whether a message that equals `message` waits.
    pub fn is_queued(&self, message: &Message) -> (r: bool)
        ensures
            r == self@.contains(message@),
    {
        let mut i: usize = 0;
        while i < self.messages.len()
            invariant
                i <= self.messages@.len(),
                forall|k: int| 0 <= k < i ==> (#[trigger] self@[k]) != message@,
            decreases self.messages@.len() - i,
        {
            if self.messages[i].same_as(message) {
                assert(self@[i as int] == message@);
                return true;
            }
            i += 1;
        }
        false
    }
}

} // verus!
