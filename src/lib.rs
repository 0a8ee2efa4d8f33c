//! Front end of an interactive command shell: a tokenizer that turns one
//! input line into a command record, and a resolver that indexes the
//! executables found along a search path.

mod commands;
mod parse;
mod resolve;
mod scan;
mod shell;
mod text;

pub use parse::{assemble, parse_input, parse_line, ParsedCommand, ParsedView, Parser};
pub use scan::{
    all_whitespace, closes_later, escapable_in_double_quotes, is_whitespace, lemma_blank_line_has_no_tokens, whitespace,
    lemma_double_quote_escape, lemma_escaped_in_double_quotes, scan_line, scan_prefix, step, step_double_quote, step_normal,
    step_potential_redirect, step_redirect, step_single_quote, words_of, ParseState, Scan,
};
pub use text::{chars_of, trim, trim_end, trim_start, trimmed};
pub use resolve::{
    add_dir, add_entries, dirs_view, get_binaries_from_paths, index_from, index_of,
    lemma_earlier_directories_win, lemma_first_directory_wins, lemma_index_holds_listed_files,
    lemma_missing_directory_adds_nothing, lists_file,
    map_of, ExecutableIndex, FileEntry, FileEntryView, SearchDir, SearchDirView,
};
pub use commands::{
    builtin_named, classification, classify, echo_text, exit_status, first_argument,
    get_command_info, joined, parse_args, type_report, Builtin, CdCommand, CdTarget,
    Classification, ClassificationView, CommandInfo, EchoCommand, ExitCommand, InvalidCommand,
    PwdCommand, RunCommand, TypeCommand,
};
pub use shell::{command_name, dispatch, dispatched, Command, Shell};
