//! The tokenizer: from one input line to a command record.

use vstd::prelude::*;

use crate::scan::{
    all_whitespace, closes_later, is_whitespace, lemma_blank_line_has_no_tokens, scan_line,
    scan_prefix, whitespace,
    step_double_quote, step_normal, step_potential_redirect, step_redirect, step_single_quote,
    words_of, ParseState, Scan,
};
use crate::text::{chars_of, text_of, trim, trimmed};

verus! {

/// A command record as values: the command name, the arguments, the output
/// redirection target and the error redirection target.
pub struct ParsedView {
    pub command: Option<Seq<char>>,
    pub arguments: Option<Seq<Seq<char>>>,
    pub output: Option<Seq<char>>,
    pub error_output: Option<Seq<char>>,
}

impl ParsedView {
    pub open spec fn empty() -> ParsedView {
        ParsedView { command: None, arguments: None, output: None, error_output: None }
    }
}

/// The record built from a finished scan: the first word is the command,
/// the others (if any) the arguments, and the first redirection target,
/// trimmed, the output target.
pub open spec fn assemble(m: Scan) -> ParsedView {
    ParsedView {
        command: if m.words.len() > 0 {
            Some(m.words[0])
        } else {
            None
        },
        arguments: if m.words.len() > 1 {
            Some(m.words.skip(1))
        } else {
            None
        },
        output: if m.targets.len() > 0 {
            Some(trimmed(m.targets[0]))
        } else {
            None
        },
        error_output: None,
    }
}

/// The command record of a line.
pub open spec fn parse_line(line: Seq<char>) -> ParsedView {
    assemble(scan_line(line, true))
}

/// One parsed input line. `args` is `None`, never empty, when the line holds
/// no token after the command.
#[derive(Debug, Clone, PartialEq, Eq)]
pub struct ParsedCommand {
    pub cmd: Option<String>,
    pub args: Option<Vec<String>>,
    pub output: Option<String>,
    pub errorout: Option<String>,
}

impl View for ParsedCommand {
    type V = ParsedView;

    open spec fn view(&self) -> ParsedView {
        ParsedView {
            command: self.cmd.deep_view(),
            arguments: self.args.deep_view(),
            output: self.output.deep_view(),
            error_output: self.errorout.deep_view(),
        }
    }
}

impl Default for ParsedCommand {
    fn default() -> (r: ParsedCommand)
        ensures
            r@ == ParsedView::empty(),
    {
        ParsedCommand { cmd: None, args: None, output: None, errorout: None }
    }
}

struct ParseInfo {
    parse_state: ParseState,
    parsed_buffer: Vec<char>,
    parsed_redirect: Vec<String>,
    final_parsed_input: Vec<String>,
}

impl View for ParseInfo {
    type V = Scan;

    closed spec fn view(&self) -> Scan {
        Scan {
            state: self.parse_state,
            buffer: self.parsed_buffer@,
            words: self.final_parsed_input.deep_view(),
            targets: self.parsed_redirect.deep_view(),
        }
    }
}

impl ParseInfo {
    fn new() -> (r: ParseInfo)
        ensures
            r@ == Scan::start(),
    {
        let r = ParseInfo {
            parse_state: ParseState::Normal { escaped: false },
            parsed_buffer: Vec::new(),
            parsed_redirect: Vec::new(),
            final_parsed_input: Vec::new(),
        };
        assert(r.final_parsed_input.deep_view() =~= Seq::<Seq<char>>::empty());
        assert(r.parsed_redirect.deep_view() =~= Seq::<Seq<char>>::empty());
        r
    }
}

/// The line scanner. Each call of `parse_input` starts afresh; what it
/// leaves behind is the finished scan of that line.
pub struct Parser {
    parsing_data: ParseInfo,
}

impl View for Parser {
    type V = Scan;

    closed spec fn view(&self) -> Scan {
        self.parsing_data@
    }
}

impl Default for Parser {
    fn default() -> (r: Parser)
        ensures
            r@ == Scan::start(),
    {
        Parser { parsing_data: ParseInfo::new() }
    }
}

/// `v` with `s` added at the end, seen through the views of its strings.
proof fn lemma_push_deep_view(v: Vec<String>, w: Vec<String>, s: String)
    requires
        w@ == v@.push(s),
    ensures
        w.deep_view() == v.deep_view().push(s@),
{
    assert(w.deep_view() =~= v.deep_view().push(s@));
}

/// The scanner never rests in `PotentialRedirect` without the digit that
/// brought it there.
proof fn lemma_potential_redirect_holds_digit(line: Seq<char>, n: nat, redirection: bool)
    requires
        n <= line.len(),
    ensures
        scan_prefix(line, n, redirection).state is PotentialRedirect ==> scan_prefix(
            line,
            n,
            redirection,
        ).buffer.len() > 0,
    decreases n,
{
    if n > 0 {
        lemma_potential_redirect_holds_digit(line, (n - 1) as nat, redirection);
    }
}

/// Whether the line is empty or made of whitespace only.
fn is_blank(line: &Vec<char>) -> (r: bool)
    ensures
        r == all_whitespace(line@),
{
    let mut i: usize = 0;
    while i < line.len()
        invariant
            i <= line@.len(),
            forall|j: int| 0 <= j < i ==> is_whitespace(#[trigger] line@[j]),
        decreases line@.len() - i,
    {
        if !whitespace(line[i]) {
            return false;
        }
        i = i + 1;
    }
    true
}

/// Whether the quote `q` occurs after position `index` of the line.
fn quote_follows(line: &Vec<char>, index: usize, q: char) -> (r: bool)
    requires
        index < line@.len(),
    ensures
        r == closes_later(line@, index as int, q),
{
    let n = line.len();
    let mut j: usize = index + 1;
    while j < n
        invariant
            n == line@.len(),
            index < j <= n,
            forall|k: int| index < k < j ==> line@[k] != q,
        decreases line@.len() - j,
    {
        if line[j] == q {
            return true;
        }
        j = j + 1;
    }
    false
}

impl Parser {
    /// Scans `input` and builds its command record. A line of whitespace gives
    /// a record with no command, no arguments and no redirection.
    pub fn parse_input(&mut self, input: &str) -> (r: ParsedCommand)
        ensures
            r@ == parse_line(input@),
            all_whitespace(input@) ==> r@ == ParsedView::empty(),
            final(self)@ == scan_line(input@, true),
    {
        let line = chars_of(input);
        if is_blank(&line) {
            self.parsing_data = ParseInfo::new();
            proof {
                lemma_blank_line_has_no_tokens(input@, true);
            }
            return ParsedCommand::default();
        }
        self.scan(&line, true);
        self.get_parse_result()
    }

    /// Runs the scanner over the whole line from a fresh start.
    fn scan(&mut self, line: &Vec<char>, redirection: bool)
        ensures
            final(self)@ == scan_line(line@, redirection),
    {
        self.parsing_data = ParseInfo::new();
        let n = line.len();
        let mut index: usize = 0;
        while index < n
            invariant
                n == line@.len(),
                index <= n,
                self@ == scan_prefix(line@, index as nat, redirection),
            decreases n - index,
        {
            let c = line[index];
            proof {
                lemma_potential_redirect_holds_digit(line@, index as nat, redirection);
            }
            match self.parsing_data.parse_state {
                ParseState::PotentialRedirect => {
                    self.handle_potential_redirect(c, line, index, redirection)
                },
                ParseState::Redirect => self.handle_redirect(c),
                ParseState::DoubleQuote { escaped } => self.handle_double_quote(c, escaped),
                ParseState::SingleQuote => self.handle_single_quote(c),
                ParseState::Normal { escaped } => {
                    self.handle_normal_parse_state(c, line, index, escaped, redirection)
                },
            }
            index = index + 1;
        }
        self.handle_non_empty_parsed_buffer();
    }

    /// The command record of the finished scan.
    fn get_parse_result(&self) -> (r: ParsedCommand)
        ensures
            r@ == assemble(self@),
    {
        let words = &self.parsing_data.final_parsed_input;
        let n = words.len();
        let cmd = if n > 0 {
            Some(words[0].clone())
        } else {
            None
        };
        let args = if n > 1 {
            let mut rest: Vec<String> = Vec::new();
            let mut i: usize = 1;
            while i < n
                invariant
                    n == words@.len(),
                    1 <= i <= n,
                    rest.deep_view() == words.deep_view().subrange(1, i as int),
                decreases n - i,
            {
                let w = words[i].clone();
                let ghost before = rest;
                rest.push(w);
                proof {
                    lemma_push_deep_view(before, rest, w);
                }
                assert(words.deep_view().subrange(1, i + 1) =~= words.deep_view().subrange(
                    1,
                    i as int,
                ).push(w@));
                i = i + 1;
            }
            assert(words.deep_view().subrange(1, n as int) =~= words.deep_view().skip(1));
            Some(rest)
        } else {
            None
        };
        let output = if self.parsing_data.parsed_redirect.len() > 0 {
            Some(trim(&self.parsing_data.parsed_redirect[0]))
        } else {
            None
        };
        ParsedCommand { cmd, args, output, errorout: None }
    }

    /// Finishes the accumulated token at the end of the line.
    fn handle_non_empty_parsed_buffer(&mut self)
        ensures
            final(self)@ == old(self)@.finish(),
    {
        if self.parsing_data.parsed_buffer.len() > 0 {
            self.handle_word_done();
        }
    }

    /// Finishes the accumulated token: a redirection target in `Redirect`,
    /// which then returns to `Normal`; a word otherwise.
    fn handle_word_done(&mut self)
        ensures
            final(self)@ == old(self)@.emit(),
    {
        let word = text_of(&self.parsing_data.parsed_buffer);
        match self.parsing_data.parse_state {
            ParseState::Redirect => {
                let ghost before = self.parsing_data.parsed_redirect;
                self.parsing_data.parsed_redirect.push(word);
                proof {
                    lemma_push_deep_view(before, self.parsing_data.parsed_redirect, word);
                }
                self.parsing_data.parse_state = ParseState::Normal { escaped: false };
            },
            _ => {
                let ghost before = self.parsing_data.final_parsed_input;
                self.parsing_data.final_parsed_input.push(word);
                proof {
                    lemma_push_deep_view(before, self.parsing_data.final_parsed_input, word);
                }
            },
        }
        self.parsing_data.parsed_buffer.clear();
        assert(self.parsing_data.parsed_buffer@ =~= Seq::<char>::empty());
    }

    fn handle_potential_redirect(
        &mut self,
        c: char,
        line: &Vec<char>,
        index: usize,
        redirection: bool,
    )
        requires
            index < line@.len(),
            c == line@[index as int],
            old(self)@.state is PotentialRedirect,
            old(self)@.buffer.len() > 0,
        ensures
            final(self)@ == step_potential_redirect(old(self)@, line@, index as int, redirection),
    {
        if c == '>' {
            // the digit before the sign names the stream, and is no part of a token
            self.parsing_data.parsed_buffer.pop();
            self.parsing_data.parse_state = ParseState::Redirect;
        } else {
            self.handle_normal_parse_state(c, line, index, false, redirection);
        }
    }

    fn handle_single_quote(&mut self, c: char)
        ensures
            final(self)@ == step_single_quote(old(self)@, c),
    {
        if c == '\'' {
            self.parsing_data.parse_state = ParseState::Normal { escaped: false };
        } else {
            self.parsing_data.parsed_buffer.push(c);
        }
    }

    fn handle_double_quote(&mut self, c: char, escaped: bool)
        ensures
            final(self)@ == step_double_quote(old(self)@, escaped, c),
    {
        if escaped {
            if !(c == '`' || c == '\\' || c == '"' || c == '$') {
                self.parsing_data.parsed_buffer.push('\\');
            }
            self.parsing_data.parsed_buffer.push(c);
            self.parsing_data.parse_state = ParseState::DoubleQuote { escaped: false };
        } else if c == '"' {
            self.parsing_data.parse_state = ParseState::Normal { escaped: false };
        } else if c == '\\' {
            self.parsing_data.parse_state = ParseState::DoubleQuote { escaped: true };
        } else {
            self.parsing_data.parsed_buffer.push(c);
        }
    }

    fn handle_redirect(&mut self, c: char)
        requires
            old(self)@.state is Redirect,
        ensures
            final(self)@ == step_redirect(old(self)@, c),
    {
        if whitespace(c) {
            if self.parsing_data.parsed_buffer.len() > 0 {
                self.handle_word_done();
            }
        } else {
            self.parsing_data.parsed_buffer.push(c);
        }
    }

    fn handle_normal_parse_state(
        &mut self,
        c: char,
        line: &Vec<char>,
        index: usize,
        escaped: bool,
        redirection: bool,
    )
        requires
            index < line@.len(),
            c == line@[index as int],
            !(old(self)@.state is Redirect),
        ensures
            final(self)@ == step_normal(old(self)@, escaped, line@, index as int, redirection),
    {
        let normal = ParseState::Normal { escaped: false };
        if escaped {
            self.parsing_data.parsed_buffer.push(c);
            self.parsing_data.parse_state = normal;
        } else if redirection && (c == '1' || c == '2') {
            // kept for now: the next character tells whether it opens a redirection
            self.parsing_data.parsed_buffer.push(c);
            self.parsing_data.parse_state = ParseState::PotentialRedirect;
        } else if redirection && c == '>' {
            self.parsing_data.parse_state = ParseState::Redirect;
        } else if whitespace(c) {
            if self.parsing_data.parsed_buffer.len() > 0 {
                self.handle_word_done();
            }
            self.parsing_data.parse_state = normal;
        } else if c == '\\' {
            self.parsing_data.parse_state = ParseState::Normal { escaped: true };
        } else if c == '\'' {
            if quote_follows(line, index, '\'') {
                self.parsing_data.parse_state = ParseState::SingleQuote;
            } else {
                self.parsing_data.parse_state = normal;
            }
        } else if c == '"' {
            if quote_follows(line, index, '"') {
                self.parsing_data.parse_state = ParseState::DoubleQuote { escaped: false };
            } else {
                self.parsing_data.parse_state = normal;
            }
        } else {
            self.parsing_data.parsed_buffer.push(c);
            self.parsing_data.parse_state = normal;
        }
    }
}

/// The tokens of a line, quotes and escapes resolved, with no special
/// meaning given to redirections.
pub fn parse_input(line: &str) -> (r: Vec<String>)
    ensures
        r.deep_view() == words_of(line@),
        all_whitespace(line@) ==> r@.len() == 0,
{
    let chars = chars_of(line);
    let mut parser = Parser { parsing_data: ParseInfo::new() };
    if is_blank(&chars) {
        proof {
            lemma_blank_line_has_no_tokens(line@, false);
        }
        return parser.parsing_data.final_parsed_input;
    }
    parser.scan(&chars, false);
    parser.parsing_data.final_parsed_input
}

} // verus!
