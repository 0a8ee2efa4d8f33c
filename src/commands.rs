//! The builtin commands and the rule that picks, for a parsed line, a
//! builtin, an executable of the index, or "not found".

use vstd::prelude::*;

use crate::parse::{parse_input, ParsedCommand, ParsedView};
use crate::resolve::ExecutableIndex;
use crate::scan::words_of;

verus! {

/// The commands the shell carries out itself.
#[derive(Clone, Copy, Debug, PartialEq, Eq, Structural)]
pub enum Builtin {
    Exit,
    Echo,
    Type,
    Pwd,
    Cd,
}

/// The builtin of that name, if any: `exit`, `echo`, `type`, `pwd`, `cd`.
pub open spec fn builtin_named(name: Seq<char>) -> Option<Builtin> {
    if name == "exit"@ {
        Some(Builtin::Exit)
    } else if name == "echo"@ {
        Some(Builtin::Echo)
    } else if name == "type"@ {
        Some(Builtin::Type)
    } else if name == "pwd"@ {
        Some(Builtin::Pwd)
    } else if name == "cd"@ {
        Some(Builtin::Cd)
    } else {
        None
    }
}

/// What a command name stands for.
pub enum Classification {
    Builtin(Builtin),
    External(String),
    NotFound,
}

/// A classification as values.
pub enum ClassificationView {
    Builtin(Builtin),
    External(Seq<char>),
    NotFound,
}

impl View for Classification {
    type V = ClassificationView;

    open spec fn view(&self) -> ClassificationView {
        match self {
            Classification::Builtin(b) => ClassificationView::Builtin(*b),
            Classification::External(p) => ClassificationView::External(p@),
            Classification::NotFound => ClassificationView::NotFound,
        }
    }
}

/// Builtins come first; then the executables of the index; anything else
/// is not found.
pub open spec fn classification(name: Seq<char>, index: Map<Seq<char>, Seq<char>>) -> ClassificationView {
    match builtin_named(name) {
        Some(b) => ClassificationView::Builtin(b),
        None => if index.contains_key(name) {
            ClassificationView::External(index[name])
        } else {
            ClassificationView::NotFound
        },
    }
}

fn builtin_of(name: &str) -> (r: Option<Builtin>)
    ensures
        r == builtin_named(name@),
{
    let key = name.to_owned();
    if key == "exit".to_owned() {
        Some(Builtin::Exit)
    } else if key == "echo".to_owned() {
        Some(Builtin::Echo)
    } else if key == "type".to_owned() {
        Some(Builtin::Type)
    } else if key == "pwd".to_owned() {
        Some(Builtin::Pwd)
    } else if key == "cd".to_owned() {
        Some(Builtin::Cd)
    } else {
        None
    }
}

/// Classifies a command name against the builtins and the index.
pub fn classify(name: &str, valid_commands: &ExecutableIndex) -> (r: Classification)
    requires
        valid_commands.wf(),
    ensures
        r@ == classification(name@, valid_commands@),
{
    match builtin_of(name) {
        Some(b) => Classification::Builtin(b),
        None => match valid_commands.get(name) {
            Some(path) => Classification::External(path),
            None => Classification::NotFound,
        },
    }
}

/// An executable found in the index: its name and its full path.
#[derive(Debug)]
pub struct CommandInfo {
    pub bin: String,
    pub path: String,
}

/// The name and full path of `command`, which the index holds.
pub fn get_command_info(valid_commands: &ExecutableIndex, command: &str) -> (r: CommandInfo)
    requires
        valid_commands.wf(),
        valid_commands@.contains_key(command@),
    ensures
        r.bin@ == command@,
        r.path@ == valid_commands@[command@],
{
    let path = valid_commands.get(command).unwrap();
    CommandInfo { bin: command.to_owned(), path }
}

/// The tokens of a line, as `parse_input` gives them.
pub fn parse_args(line: &str) -> (r: Vec<String>)
    ensures
        r.deep_view() == words_of(line@),
{
    parse_input(line)
}

/// Relies on `exitcode::OK`: the status of a successful run, 0.
#[verifier::external_body]
fn success_status() -> (r: i32)
    ensures
        r == 0,
{
    exitcode::OK
}

/// Relies on `exitcode::USAGE`: the status of a command used wrongly, 64.
#[verifier::external_body]
fn usage_status() -> (r: i32)
    ensures
        r == 64,
{
    exitcode::USAGE
}

/// The first argument, if there is one.
pub open spec fn first_argument(p: ParsedView) -> Option<Seq<char>> {
    match p.arguments {
        Some(args) => if args.len() > 0 {
            Some(args[0])
        } else {
            None
        },
        None => None,
    }
}

fn first_arg(options: &ParsedCommand) -> (r: Option<&String>)
    ensures
        r.deep_view() == first_argument(options@),
{
    match &options.args {
        Some(args) => if args.len() > 0 {
            Some(&args[0])
        } else {
            None
        },
        None => None,
    }
}

/// `a` followed by `b`.
fn joined_text(a: &String, b: &str) -> (r: String)
    ensures
        r@ == a@ + b@,
{
    let mut r = a.clone();
    r.append(b);
    r
}

/// The words separated by single spaces.
pub open spec fn joined(words: Seq<Seq<char>>) -> Seq<char>
    decreases words.len(),
{
    if words.len() == 0 {
        Seq::empty()
    } else if words.len() == 1 {
        words[0]
    } else {
        joined(words.drop_last()) + " "@ + words.last()
    }
}

/// Exit status asked for by `exit`: success for the argument `0`, a usage
/// error for any other argument or none.
pub open spec fn exit_status(p: ParsedView) -> i32 {
    if first_argument(p) == Some("0"@) {
        0
    } else {
        64
    }
}

/// The line that `echo` writes, without its newline.
pub open spec fn echo_text(p: ParsedView) -> Seq<char> {
    match p.arguments {
        Some(args) => joined(args),
        None => Seq::empty(),
    }
}

/// The line that `type` writes about its first argument.
pub open spec fn type_report(p: ParsedView, index: Map<Seq<char>, Seq<char>>) -> Seq<char> {
    match first_argument(p) {
        None => "Wrong usage"@,
        Some(bin) => match classification(bin, index) {
            ClassificationView::Builtin(_) => bin + " is a shell builtin"@,
            ClassificationView::External(path) => bin + " is "@ + path,
            ClassificationView::NotFound => bin + ": not found"@,
        },
    }
}

/// Where `cd` goes: nowhere without an argument, to the home directory
/// for `~`, to the named directory otherwise.
pub enum CdTarget {
    Stay,
    Home,
    Dir(String),
}

/// `exit`: ends the shell with a status chosen by its argument.
#[derive(Debug)]
pub struct ExitCommand {
    pub options: ParsedCommand,
}

/// `echo`: writes its arguments.
#[derive(Debug)]
pub struct EchoCommand {
    pub options: ParsedCommand,
}

/// `type`: tells what its first argument names.
pub struct TypeCommand {
    pub options: ParsedCommand,
    pub valid_commands: ExecutableIndex,
}

/// A name that is neither a builtin nor an indexed executable.
#[derive(Debug)]
pub struct InvalidCommand {
    pub options: ParsedCommand,
}

/// An executable of the index, run with the arguments of the line.
#[derive(Debug)]
pub struct RunCommand {
    pub options: ParsedCommand,
    pub command: CommandInfo,
}

/// `pwd`: writes the working directory.
#[derive(Debug)]
pub struct PwdCommand {
    pub options: ParsedCommand,
}

/// `cd`: changes the working directory.
#[derive(Debug)]
pub struct CdCommand {
    pub options: ParsedCommand,
}

impl ExitCommand {
    pub fn new(options: ParsedCommand) -> (r: ExitCommand)
        ensures
            r.options == options,
    {
        ExitCommand { options }
    }

    /// The status the shell exits with.
    pub fn status(&self) -> (r: i32)
        ensures
            r == exit_status(self.options@),
    {
        match first_arg(&self.options) {
            Some(arg) => {
                if *arg == "0".to_owned() {
                    success_status()
                } else {
                    usage_status()
                }
            },
            None => usage_status(),
        }
    }
}

impl EchoCommand {
    pub fn new(options: ParsedCommand) -> (r: EchoCommand)
        ensures
            r.options == options,
    {
        EchoCommand { options }
    }

    /// The arguments separated by single spaces.
    pub fn text(&self) -> (r: String)
        ensures
            r@ == echo_text(self.options@),
    {
        match &self.options.args {
            Some(args) => {
                let n = args.len();
                let mut r = String::new();
                let mut i: usize = 0;
                while i < n
                    invariant
                        n == args@.len(),
                        i <= n,
                        r@ == joined(args.deep_view().take(i as int)),
                    decreases n - i,
                {
                    proof {
                        let ws = args.deep_view().take(i + 1);
                        assert(ws.drop_last() =~= args.deep_view().take(i as int));
                        assert(ws.last() == args[i as int]@);
                    }
                    if i > 0 {
                        r.append(" ");
                    }
                    r.append(args[i].as_str());
                    i = i + 1;
                }
                assert(args.deep_view().take(n as int) =~= args.deep_view());
                r
            },
            None => String::new(),
        }
    }
}

impl InvalidCommand {
    pub fn new(options: ParsedCommand) -> (r: InvalidCommand)
        ensures
            r.options == options,
    {
        InvalidCommand { options }
    }

    /// The report on a name that is neither a builtin nor an indexed
    /// executable; nothing for a line without a command.
    pub fn message(&self) -> (r: Option<String>)
        ensures
            r.deep_view() == (match self.options@.command {
                Some(c) => Some(c + ": command not found"@),
                None => None,
            }),
    {
        match &self.options.cmd {
            Some(c) => Some(joined_text(c, ": command not found")),
            None => None,
        }
    }
}

impl RunCommand {
    pub fn new(options: ParsedCommand, command: CommandInfo) -> (r: RunCommand)
        ensures
            r.options == options,
            r.command == command,
    {
        RunCommand { command, options }
    }
}

impl TypeCommand {
    pub fn new(options: ParsedCommand, valid_commands: ExecutableIndex) -> (r: TypeCommand)
        ensures
            r.options == options,
            r.valid_commands == valid_commands,
    {
        TypeCommand { options, valid_commands }
    }

    /// What the first argument names: a builtin, an executable at a path,
    /// or nothing.
    pub fn report(&self) -> (r: String)
        requires
            self.valid_commands.wf(),
        ensures
            r@ == type_report(self.options@, self.valid_commands@),
    {
        match first_arg(&self.options) {
            None => "Wrong usage".to_owned(),
            Some(bin) => match classify(bin.as_str(), &self.valid_commands) {
                Classification::Builtin(_) => joined_text(bin, " is a shell builtin"),
                Classification::External(path) => {
                    let head = joined_text(bin, " is ");
                    joined_text(&head, path.as_str())
                },
                Classification::NotFound => joined_text(bin, ": not found"),
            },
        }
    }
}

impl PwdCommand {
    pub fn new(options: ParsedCommand) -> (r: PwdCommand)
        ensures
            r.options == options,
    {
        PwdCommand { options }
    }
}

impl CdCommand {
    pub fn new(options: ParsedCommand) -> (r: CdCommand)
        ensures
            r.options == options,
    {
        CdCommand { options }
    }

    /// The directory to change to.
    pub fn target(&self) -> (r: CdTarget)
        ensures
            match first_argument(self.options@) {
                None => r is Stay,
                Some(a) => if a == "~"@ {
                    r is Home
                } else {
                    r matches CdTarget::Dir(d) && d@ == a
                },
            },
    {
        match first_arg(&self.options) {
            None => CdTarget::Stay,
            Some(a) => if *a == "~".to_owned() {
                CdTarget::Home
            } else {
                CdTarget::Dir(a.clone())
            },
        }
    }
}

} // verus!
