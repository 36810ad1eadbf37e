//! The part of the configuration that the core reads: colors and hints.

use vstd::prelude::*;

use crate::color::{CellRgb, Rgb};
use crate::search::{regex_is_valid, RegexSearch};
use crate::text::{chars_of, string_views};
use crate::width::{char_width, unicode_width};

verus! {

/// Foreground and background of the terminal.
#[derive(Debug, Clone, Copy, PartialEq, Eq, Structural)]
pub struct PrimaryColors {
    pub foreground: Rgb,
    pub background: Rgb,
    pub bright_foreground: Option<Rgb>,
}

/// Colors of a cell under a cursor: of its text and of the cursor itself.
#[derive(Debug, Clone, Copy, PartialEq, Eq, Structural)]
pub struct InvertedCellColors {
    pub foreground: CellRgb,
    pub background: CellRgb,
}

/// The configured colors.
#[derive(Debug, Clone, Copy, PartialEq, Eq, Structural)]
pub struct Colors {
    pub primary: PrimaryColors,
    pub cursor: InvertedCellColors,
    pub vi_mode_cursor: InvertedCellColors,
    pub transparent_background_colors: bool,
}

/// The configuration of the user interface.
#[derive(Debug, Clone, Copy, PartialEq, Eq, Structural)]
pub struct UiConfig {
    pub colors: Colors,
    /// Whether bold text is drawn in the bright variant of its color.
    pub draw_bold_text_with_bright_colors: bool,
    /// Whether the window's opacity is zero.
    pub window_opacity_is_zero: bool,
}

impl UiConfig {
    /// Whether bold text is drawn in the bright variant of its color.
    pub fn draw_bold_text_with_bright_colors(&self) -> (r: bool)
        ensures
            r == self.draw_bold_text_with_bright_colors,
    {
        self.draw_bold_text_with_bright_colors
    }
}

/// What is done with the text of a hint, within the terminal.
#[derive(Debug, Clone, Copy, PartialEq, Eq, Structural)]
pub enum HintInternalAction {
    /// Copy the text to the clipboard.
    Copy,
    /// Write the text to the terminal's program or to the search.
    Paste,
    /// Select the text.
    Select,
    /// Move the vi mode cursor to the start of the hint.
    MoveViModeCursor,
}

/// A program with its arguments.
#[derive(Debug, Clone, PartialEq, Eq)]
pub enum Program {
    Just(String),
    WithArgs { program: String, args: Vec<String> },
}

/// What a [`Program`] holds.
pub struct ProgramView {
    pub program: Seq<char>,
    pub args: Seq<Seq<char>>,
}

impl View for Program {
    type V = ProgramView;

    open spec fn view(&self) -> ProgramView {
        match self {
            Program::Just(program) => ProgramView { program: program@, args: Seq::empty() },
            Program::WithArgs { program, args } => ProgramView {
                program: program@,
                args: string_views(args@),
            },
        }
    }
}

/// A copy of `strings`.
pub fn duplicate_strings(strings: &Vec<String>) -> (out: Vec<String>)
    ensures
        string_views(out@) == string_views(strings@),
{
    let mut out: Vec<String> = Vec::new();
    let mut i: usize = 0;
    while i < strings.len()
        invariant
            i <= strings@.len(),
            string_views(out@) == string_views(strings@.take(i as int)),
        decreases strings@.len() - i,
    {
        let ghost before = out@;
        out.push(strings[i].clone());
        i += 1;
        assert(string_views(out@) =~= string_views(before).push(strings@[i - 1]@));
        assert(string_views(strings@.take(i as int)) =~= string_views(strings@.take(i - 1)).push(
            strings@[i - 1]@,
        ));
    }
    assert(strings@.take(strings@.len() as int) =~= strings@);
    out
}

impl Program {
    /// The program's name.
    pub fn program(&self) -> (name: &str)
        ensures
            name@ == self@.program,
    {
        match self {
            Program::Just(program) => program.as_str(),
            Program::WithArgs { program, .. } => program.as_str(),
        }
    }

    /// The program's arguments.
    pub fn args(&self) -> (args: Vec<String>)
        ensures
            string_views(args@) == self@.args,
    {
        match self {
            Program::Just(_) => {
                let args: Vec<String> = Vec::new();
                assert(string_views(args@) =~= Seq::<Seq<char>>::empty());
                args
            },
            Program::WithArgs { args, .. } => duplicate_strings(args),
        }
    }

    /// A copy of the program.
    pub fn duplicate(&self) -> (copy: Program)
        ensures
            copy@ == self@,
    {
        match self {
            Program::Just(program) => Program::Just(program.clone()),
            Program::WithArgs { program, args } => {
                let args = duplicate_strings(args);
                if args.len() == 0 {
                    assert(string_views(args@) =~= Seq::<Seq<char>>::empty());
                }
                Program::WithArgs { program: program.clone(), args }
            },
        }
    }
}

/// What is done with the text of a hint.
#[derive(Debug, Clone, PartialEq, Eq)]
pub enum HintAction {
    /// An action within the terminal.
    Action(HintInternalAction),
    /// A program to which the text is handed.
    Command(Program),
}

/// What a [`HintAction`] holds.
pub enum HintActionView {
    Action(HintInternalAction),
    Command(ProgramView),
}

impl View for HintAction {
    type V = HintActionView;

    open spec fn view(&self) -> HintActionView {
        match self {
            HintAction::Action(action) => HintActionView::Action(*action),
            HintAction::Command(program) => HintActionView::Command(program@),
        }
    }
}

impl HintAction {
    /// A copy of the action.
    pub fn duplicate(&self) -> (copy: HintAction)
        ensures
            copy@ == self@,
    {
        match self {
            HintAction::Action(action) => HintAction::Action(*action),
            HintAction::Command(program) => HintAction::Command(program.duplicate()),
        }
    }
}

/// A regular expression that is compiled when it is first used.
#[derive(Debug)]
pub enum LazyRegexVariant {
    /// The compiled expression.
    Compiled(RegexSearch),
    /// The pattern, not compiled yet.
    Pattern(String),
    /// The pattern was found to be no regular expression.
    Uncompilable,
}

/// A regular expression that is compiled when it is first used.
#[derive(Debug)]
pub struct LazyRegex(pub LazyRegexVariant);

impl LazyRegex {
    /// Whether a compiled expression can be had, now or by compiling.
    pub open spec fn usable(&self) -> bool {
        match self.0 {
            LazyRegexVariant::Compiled(_) => true,
            LazyRegexVariant::Pattern(pattern) => regex_is_valid(pattern@),
            LazyRegexVariant::Uncompilable => false,
        }
    }

    /// The pattern, where the expression is usable.
    pub open spec fn pattern(&self) -> Seq<char> {
        match self.0 {
            LazyRegexVariant::Compiled(search) => search@,
            LazyRegexVariant::Pattern(pattern) => pattern@,
            LazyRegexVariant::Uncompilable => Seq::empty(),
        }
    }

    /// Whether the expression was tried: it is compiled or found to be
    /// none.
    pub open spec fn settled(&self) -> bool {
        !(self.0 is Pattern)
    }

    /// An expression that is compiled from `pattern` when it is first used.
    pub fn new(pattern: String) -> (regex: LazyRegex)
        ensures
            regex.0 == LazyRegexVariant::Pattern(pattern),
    {
        LazyRegex(LazyRegexVariant::Pattern(pattern))
    }

    /// Compiles the pattern if that was not tried before.
    pub fn compile(&mut self)
        ensures
            final(self).settled(),
            final(self).usable() == old(self).usable(),
            old(self).usable() ==> final(self).pattern() == old(self).pattern(),
    {
        let settled: bool = match &self.0 {
            LazyRegexVariant::Pattern(_) => false,
            _ => true,
        };
        if settled {
            return ;
        }
        let mut variant = LazyRegexVariant::Uncompilable;
        core::mem::swap(&mut variant, &mut self.0);
        match variant {
            LazyRegexVariant::Pattern(pattern) => {
                match RegexSearch::new(pattern.as_str()) {
                    Ok(search) => {
                        self.0 = LazyRegexVariant::Compiled(search);
                    },
                    Err(_) => {},
                }
            },
            _ => {},
        }
    }

    /// The compiled expression, where there is one.
    pub fn compiled(&self) -> (search: Option<&RegexSearch>)
        ensures
            match search {
                Some(s) => self.0 is Compiled && s@ == self.pattern(),
                None => !(self.0 is Compiled),
            },
    {
        match &self.0 {
            LazyRegexVariant::Compiled(search) => Some(search),
            _ => None,
        }
    }
}

/// What a hint looks for.
#[derive(Debug)]
pub struct HintContent {
    /// Regular expression that finds the hint's matches.
    pub regex: Option<LazyRegex>,
    /// Whether the hyperlinks that the terminal's program has marked are
    /// hints.
    pub hyperlinks: bool,
}

impl HintContent {
    pub fn new(regex: Option<LazyRegex>, hyperlinks: bool) -> (content: HintContent)
        ensures
            content.regex == regex,
            content.hyperlinks == hyperlinks,
    {
        HintContent { regex, hyperlinks }
    }

    /// Whether the content finds anything: it has a regular expression or
    /// takes hyperlinks.
    pub open spec fn spec_is_valid(&self) -> bool {
        self.regex is Some || self.hyperlinks
    }

    /// Whether the content finds anything.
    pub fn is_valid(&self) -> (r: bool)
        ensures
            r == self.spec_is_valid(),
    {
        self.regex.is_some() || self.hyperlinks
    }
}

/// Highlighting of a hint under the mouse.
#[derive(Debug, Default, Clone, Copy, PartialEq, Eq, Structural)]
pub struct HintMouse {
    /// Whether the hint is highlighted under the mouse.
    pub enabled: bool,
}

/// A hint: what it looks for and what is done with what it finds.
#[derive(Debug)]
pub struct Hint {
    pub content: HintContent,
    pub action: HintAction,
    /// Whether the matches are cut at characters that are unlikely to belong
    /// to them.
    pub post_processing: bool,
    /// Whether the hints stay after one was chosen.
    pub persist: bool,
    pub mouse: Option<HintMouse>,
}

/// Why a text cannot be the alphabet of the hint labels.
#[derive(Debug, Clone, Copy, PartialEq, Eq, Structural)]
pub enum AlphabetError {
    /// A character does not take one column.
    CharacterWidth,
    /// The text has fewer than two characters.
    TooShort,
}

/// The characters of the hint labels.
#[derive(Debug, Clone, PartialEq, Eq)]
pub struct HintsAlphabet(String);

impl View for HintsAlphabet {
    type V = Seq<char>;

    closed spec fn view(&self) -> Seq<char> {
        self.0@
    }
}

/// Whether every character of `s` takes one column.
pub open spec fn all_single_width(s: Seq<char>) -> bool {
    forall|i: int| 0 <= i < s.len() ==> unicode_width(#[trigger] s[i]) == Some(1usize)
}

impl HintsAlphabet {
    /// What holds of every alphabet: it has two characters at least.
    pub open spec fn wf(&self) -> bool {
        self@.len() >= 2
    }

    /// The alphabet `jfkdls;ahgurieowpq`.
    pub fn default_alphabet() -> (alphabet: HintsAlphabet)
        ensures
            alphabet.wf(),
            alphabet@ == "jfkdls;ahgurieowpq"@,
    {
        proof {
            reveal_strlit("jfkdls;ahgurieowpq");
        }
        HintsAlphabet("jfkdls;ahgurieowpq".to_owned())
    }

    /// Takes `value` as the alphabet if every character of it takes one
    /// column and there are two of them at least. A character of another
    /// width is reported before the length is.
    pub fn new(value: String) -> (r: Result<HintsAlphabet, AlphabetError>)
        ensures
            match r {
                Ok(alphabet) => alphabet@ == value@ && alphabet.wf() && all_single_width(value@),
                Err(AlphabetError::CharacterWidth) => !all_single_width(value@),
                Err(AlphabetError::TooShort) => all_single_width(value@) && value@.len() < 2,
            },
    {
        let chars = chars_of(value.as_str());
        let mut i: usize = 0;
        while i < chars.len()
            invariant
                i <= chars@.len(),
                chars@ == value@,
                forall|k: int| 0 <= k < i ==> unicode_width(#[trigger] chars@[k]) == Some(1usize),
            decreases chars@.len() - i,
        {
            match char_width(chars[i]) {
                Some(1) => {},
                _ => {
                    return Err(AlphabetError::CharacterWidth);
                },
            }
            i += 1;
        }
        if chars.len() < 2 {
            return Err(AlphabetError::TooShort);
        }
        Ok(HintsAlphabet(value))
    }

    /// The characters.
    pub fn as_str(&self) -> (s: &str)
        ensures
            s@ == self@,
    {
        self.0.as_str()
    }
}

/// Regular expression of the hint for URLs.
pub const URL_REGEX: &'static str =
    "(ipfs:|ipns:|magnet:|mailto:|gemini://|gopher://|https://|http://|news:|file:|git://|ssh:|ftp://)[^\u{0000}-\u{001F}\u{007F}-\u{009F}<>\"\\s{-}\\^\u{27E8}\u{27E9}`]+";

/// The hints of the terminal.
#[derive(Debug)]
pub struct Hints {
    /// The characters of the hint labels.
    pub alphabet: HintsAlphabet,
    /// The hints that are in use.
    pub enabled: Vec<Hint>,
}

impl Hints {
    /// The hints that are in use where none is configured: one hint for
    /// URLs and hyperlinks, whose text is handed to the program `opener`.
    pub fn with_url_hint(opener: Program) -> (hints: Hints)
        ensures
            hints.alphabet.wf(),
            hints.enabled@.len() == 1,
            hints.enabled@[0].content.hyperlinks,
            hints.enabled@[0].content.regex matches Some(regex) && !regex.settled()
                && regex.pattern() == URL_REGEX@,
            hints.enabled@[0].action == HintAction::Command(opener),
            hints.enabled@[0].post_processing,
            !hints.enabled@[0].persist,
            hints.enabled@[0].mouse == Some(HintMouse { enabled: true }),
    {
        let regex = LazyRegex::new(URL_REGEX.to_owned());
        let content = HintContent::new(Some(regex), true);
        let mut enabled: Vec<Hint> = Vec::new();
        enabled.push(
            Hint {
                content,
                action: HintAction::Command(opener),
                post_processing: true,
                persist: false,
                mouse: Some(HintMouse { enabled: true }),
            },
        );
        Hints { alphabet: HintsAlphabet::default_alphabet(), enabled }
    }
}

} // verus!
