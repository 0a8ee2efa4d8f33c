//! The tokenizer as a mathematical state machine over the characters of a
//! line. The executable parser in `parse` is proved to follow it step by step.

use vstd::prelude::*;

verus! {

/// The state of the scanner between two characters. `escaped` records that
/// the previous character was an unquoted or double-quoted backslash.
#[derive(Clone, Copy, Debug, PartialEq, Eq, Structural)]
pub enum ParseState {
    Normal { escaped: bool },
    SingleQuote,
    DoubleQuote { escaped: bool },
    PotentialRedirect,
    Redirect,
}

/// Where the scanner stands after a prefix of the line: its state, the
/// characters of the token being accumulated, the finished command and
/// argument tokens, and the finished redirection targets.
pub struct Scan {
    pub state: ParseState,
    pub buffer: Seq<char>,
    pub words: Seq<Seq<char>>,
    pub targets: Seq<Seq<char>>,
}

/// Whitespace: the characters of Unicode's `White_Space` property, the set
/// that `char::is_whitespace` tests. Whitespace separates tokens.
pub open spec fn is_whitespace(c: char) -> bool {
    let u = c as u32;
    ||| 0x09 <= u <= 0x0D
    ||| u == 0x20
    ||| u == 0x85
    ||| u == 0xA0
    ||| u == 0x1680
    ||| 0x2000 <= u <= 0x200A
    ||| u == 0x2028
    ||| u == 0x2029
    ||| u == 0x202F
    ||| u == 0x205F
    ||| u == 0x3000
}

/// Whether `c` is whitespace.
pub fn whitespace(c: char) -> (r: bool)
    ensures
        r == is_whitespace(c),
{
    let u = c as u32;
    (0x09 <= u && u <= 0x0D) || u == 0x20 || u == 0x85 || u == 0xA0 || u == 0x1680 || (0x2000
        <= u && u <= 0x200A) || u == 0x2028 || u == 0x2029 || u == 0x202F || u == 0x205F || u
        == 0x3000
}

/// A line made of whitespace only, or empty.
pub open spec fn all_whitespace(line: Seq<char>) -> bool {
    forall|i: int| 0 <= i < line.len() ==> is_whitespace(#[trigger] line[i])
}

/// The characters that a backslash escapes inside double quotes.
pub open spec fn escapable_in_double_quotes(c: char) -> bool {
    c == '`' || c == '\\' || c == '"' || c == '$'
}

/// Some character after position `i` of the line is the quote `q`.
pub open spec fn closes_later(line: Seq<char>, i: int, q: char) -> bool {
    exists|j: int| i < j < line.len() && line[j] == q
}

impl Scan {
    pub open spec fn start() -> Scan {
        Scan {
            state: ParseState::Normal { escaped: false },
            buffer: Seq::empty(),
            words: Seq::empty(),
            targets: Seq::empty(),
        }
    }

    pub open spec fn with_state(self, state: ParseState) -> Scan {
        Scan { state, ..self }
    }

    pub open spec fn append(self, c: char) -> Scan {
        Scan { buffer: self.buffer.push(c), ..self }
    }

    /// Finishes the accumulated token: a redirection target when the
    /// scanner is in `Redirect` (which then ends), a word otherwise.
    pub open spec fn emit(self) -> Scan {
        if self.state is Redirect {
            Scan {
                state: ParseState::Normal { escaped: false },
                buffer: Seq::empty(),
                words: self.words,
                targets: self.targets.push(self.buffer),
            }
        } else {
            Scan {
                state: self.state,
                buffer: Seq::empty(),
                words: self.words.push(self.buffer),
                targets: self.targets,
            }
        }
    }

    /// What remains to be done at the end of the line.
    pub open spec fn finish(self) -> Scan {
        if self.buffer.len() > 0 {
            self.emit()
        } else {
            self
        }
    }
}

/// One character `line[i]` read outside quotes. Digits `1` and `2` and the
/// sign `>` open a redirection only when `redirection` is on.
pub open spec fn step_normal(
    m: Scan,
    escaped: bool,
    line: Seq<char>,
    i: int,
    redirection: bool,
) -> Scan {
    let c = line[i];
    let normal = ParseState::Normal { escaped: false };
    if escaped {
        m.append(c).with_state(normal)
    } else if redirection && (c == '1' || c == '2') {
        m.append(c).with_state(ParseState::PotentialRedirect)
    } else if redirection && c == '>' {
        m.with_state(ParseState::Redirect)
    } else if is_whitespace(c) {
        if m.buffer.len() > 0 {
            m.emit().with_state(normal)
        } else {
            m.with_state(normal)
        }
    } else if c == '\\' {
        m.with_state(ParseState::Normal { escaped: true })
    } else if c == '\'' {
        if closes_later(line, i, '\'') {
            m.with_state(ParseState::SingleQuote)
        } else {
            m.with_state(normal)
        }
    } else if c == '"' {
        if closes_later(line, i, '"') {
            m.with_state(ParseState::DoubleQuote { escaped: false })
        } else {
            m.with_state(normal)
        }
    } else {
        m.append(c).with_state(normal)
    }
}

/// One character read inside single quotes: copied, up to the closing quote.
pub open spec fn step_single_quote(m: Scan, c: char) -> Scan {
    if c == '\'' {
        m.with_state(ParseState::Normal { escaped: false })
    } else {
        m.append(c)
    }
}

/// One character read inside double quotes.
pub open spec fn step_double_quote(m: Scan, escaped: bool, c: char) -> Scan {
    let quoted = ParseState::DoubleQuote { escaped: false };
    if escaped {
        if escapable_in_double_quotes(c) {
            m.append(c).with_state(quoted)
        } else {
            m.append('\\').append(c).with_state(quoted)
        }
    } else if c == '"' {
        m.with_state(ParseState::Normal { escaped: false })
    } else if c == '\\' {
        m.with_state(ParseState::DoubleQuote { escaped: true })
    } else {
        m.append(c)
    }
}

/// The character after a digit `1` or `2`: a `>` drops the digit and opens
/// the redirection; any other character is read as outside quotes.
pub open spec fn step_potential_redirect(
    m: Scan,
    line: Seq<char>,
    i: int,
    redirection: bool,
) -> Scan {
    if line[i] == '>' {
        Scan { buffer: m.buffer.drop_last(), ..m }.with_state(ParseState::Redirect)
    } else {
        step_normal(m, false, line, i, redirection)
    }
}

/// One character read after a `>`: whitespace ends the target once it has
/// begun.
pub open spec fn step_redirect(m: Scan, c: char) -> Scan {
    if is_whitespace(c) {
        if m.buffer.len() > 0 {
            m.emit()
        } else {
            m
        }
    } else {
        m.append(c)
    }
}

/// The scanner reading `line[i]`.
pub open spec fn step(m: Scan, line: Seq<char>, i: int, redirection: bool) -> Scan {
    match m.state {
        ParseState::Normal { escaped } => step_normal(m, escaped, line, i, redirection),
        ParseState::SingleQuote => step_single_quote(m, line[i]),
        ParseState::DoubleQuote { escaped } => step_double_quote(m, escaped, line[i]),
        ParseState::PotentialRedirect => step_potential_redirect(m, line, i, redirection),
        ParseState::Redirect => step_redirect(m, line[i]),
    }
}

/// The scanner after reading the first `n` characters of the line.
pub open spec fn scan_prefix(line: Seq<char>, n: nat, redirection: bool) -> Scan
    decreases n,
{
    if n == 0 {
        Scan::start()
    } else {
        step(scan_prefix(line, (n - 1) as nat, redirection), line, n - 1, redirection)
    }
}

/// The scanner after the whole line, with the last token finished.
pub open spec fn scan_line(line: Seq<char>, redirection: bool) -> Scan {
    scan_prefix(line, line.len(), redirection).finish()
}

/// The tokens of a line when redirections are not recognised.
pub open spec fn words_of(line: Seq<char>) -> Seq<Seq<char>> {
    scan_line(line, false).words
}

/// A line of whitespace leaves the scanner where it started: no command, no
/// argument and no redirection target.
pub proof fn lemma_blank_line_has_no_tokens(line: Seq<char>, redirection: bool)
    requires
        all_whitespace(line),
    ensures
        scan_line(line, redirection) == Scan::start(),
        scan_line(line, redirection).words.len() == 0,
        scan_line(line, redirection).targets.len() == 0,
{
    lemma_blank_prefix(line, line.len(), redirection);
}

proof fn lemma_blank_prefix(line: Seq<char>, n: nat, redirection: bool)
    requires
        all_whitespace(line),
        n <= line.len(),
    ensures
        scan_prefix(line, n, redirection) == Scan::start(),
    decreases n,
{
    if n > 0 {
        lemma_blank_prefix(line, (n - 1) as nat, redirection);
        assert(is_whitespace(line[n - 1]));
        assert(Scan::start().with_state(ParseState::Normal { escaped: false }) == Scan::start());
    }
}

/// The character after a backslash inside double quotes: one of `` ` ``,
/// `\`, `"` and `$` is added alone, the backslash dropped; any other is added
/// with the backslash before it. The quotes stay open, and no token ends.
pub proof fn lemma_escaped_in_double_quotes(m: Scan, line: Seq<char>, i: int, redirection: bool)
    requires
        0 <= i < line.len(),
        m.state == (ParseState::DoubleQuote { escaped: true }),
    ensures
        ({
            let after = step(m, line, i, redirection);
            let c = line[i];
            &&& after.state == (ParseState::DoubleQuote { escaped: false })
            &&& after.words == m.words
            &&& after.targets == m.targets
            &&& escapable_in_double_quotes(c) ==> after.buffer == m.buffer.push(c)
            &&& !escapable_in_double_quotes(c) ==> after.buffer == m.buffer.push('\\').push(c)
        }),
{
}

/// Inside double quotes, a backslash followed by one of `` ` ``, `\`, `"`
/// and `$` adds that character alone to the token; followed by any other
/// character it adds both. Either way the quotes stay open.
pub proof fn lemma_double_quote_escape(line: Seq<char>, i: nat, redirection: bool)
    requires
        i + 1 < line.len(),
        line[i as int] == '\\',
        scan_prefix(line, i, redirection).state == (ParseState::DoubleQuote { escaped: false }),
    ensures
        ({
            let before = scan_prefix(line, i, redirection);
            let after = scan_prefix(line, i + 2, redirection);
            let c = line[i + 1 as int];
            &&& after.state == before.state
            &&& after.words == before.words
            &&& after.targets == before.targets
            &&& escapable_in_double_quotes(c) ==> after.buffer == before.buffer.push(c)
            &&& !escapable_in_double_quotes(c) ==> after.buffer == before.buffer.push('\\').push(c)
        }),
{
    assert(scan_prefix(line, i + 1, redirection) == step(scan_prefix(line, i, redirection), line, i as int, redirection));
    assert(scan_prefix(line, i + 2, redirection) == step(scan_prefix(line, i + 1, redirection), line, (i + 1) as int, redirection));
}

} // verus!
