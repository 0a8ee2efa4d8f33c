//! The dispatcher: from an input line to the command that carries it out.

use vstd::prelude::*;

use crate::commands::{
    classification, classify, get_command_info, Builtin, CdCommand, Classification,
    ClassificationView, EchoCommand, ExitCommand, InvalidCommand, PwdCommand, RunCommand,
    TypeCommand,
};
use crate::parse::{parse_line, ParsedCommand, ParsedView, Parser};
use crate::resolve::ExecutableIndex;

verus! {

/// A parsed line bound to what carries it out.
pub enum Command {
    Exit(ExitCommand),
    Echo(EchoCommand),
    Type(TypeCommand),
    Pwd(PwdCommand),
    Cd(CdCommand),
    Run(RunCommand),
    Invalid(InvalidCommand),
}

/// The command name of a record; the empty name when there is none.
pub open spec fn command_name(p: ParsedView) -> Seq<char> {
    match p.command {
        Some(c) => c,
        None => Seq::empty(),
    }
}

/// `r` carries out the record `p` as the classification of its command
/// name against `index` says.
pub open spec fn dispatched(r: Command, p: ParsedView, index: Map<Seq<char>, Seq<char>>) -> bool {
    match classification(command_name(p), index) {
        ClassificationView::Builtin(Builtin::Exit) => r matches Command::Exit(c) && c.options@ == p,
        ClassificationView::Builtin(Builtin::Echo) => r matches Command::Echo(c) && c.options@ == p,
        ClassificationView::Builtin(Builtin::Type) => r matches Command::Type(c) && c.options@ == p
            && c.valid_commands.wf() && c.valid_commands@ == index,
        ClassificationView::Builtin(Builtin::Pwd) => r matches Command::Pwd(c) && c.options@ == p,
        ClassificationView::Builtin(Builtin::Cd) => r matches Command::Cd(c) && c.options@ == p,
        ClassificationView::External(path) => r matches Command::Run(c) && c.options@ == p
            && c.command.bin@ == command_name(p) && c.command.path@ == path,
        ClassificationView::NotFound => r matches Command::Invalid(c) && c.options@ == p,
    }
}

/// Binds a parsed line to a builtin, to an executable of the index, or to
/// the "not found" report.
pub fn dispatch(options: ParsedCommand, valid_commands: &ExecutableIndex) -> (r: Command)
    requires
        valid_commands.wf(),
    ensures
        dispatched(r, options@, valid_commands@),
{
    let name = match &options.cmd {
        Some(c) => c.clone(),
        None => String::new(),
    };
    match classify(name.as_str(), valid_commands) {
        Classification::Builtin(Builtin::Exit) => Command::Exit(ExitCommand::new(options)),
        Classification::Builtin(Builtin::Echo) => Command::Echo(EchoCommand::new(options)),
        Classification::Builtin(Builtin::Type) => Command::Type(
            TypeCommand::new(options, valid_commands.duplicate()),
        ),
        Classification::Builtin(Builtin::Pwd) => Command::Pwd(PwdCommand::new(options)),
        Classification::Builtin(Builtin::Cd) => Command::Cd(CdCommand::new(options)),
        Classification::External(_) => {
            let info = get_command_info(valid_commands, name.as_str());
            Command::Run(RunCommand::new(options, info))
        },
        Classification::NotFound => Command::Invalid(InvalidCommand::new(options)),
    }
}

/// The shell, with the index of the executables it may run. The index is
/// meant to be built afresh for each line.
pub struct Shell {
    pub valid_commands: ExecutableIndex,
}

impl Shell {
    pub fn init(valid_commands: ExecutableIndex) -> (r: Shell)
        ensures
            r.valid_commands == valid_commands,
    {
        Shell { valid_commands }
    }

    /// Parses one input line and binds it to what carries it out.
    pub fn parse(&self, input: String) -> (r: Command)
        requires
            self.valid_commands.wf(),
        ensures
            dispatched(r, parse_line(input@), self.valid_commands@),
    {
        let mut parser = Parser::default();
        let options = parser.parse_input(input.as_str());
        dispatch(options, &self.valid_commands)
    }
}

} // verus!
