//! The command line: `-e/--extension EXT` (repeatable), `-s/--server CMD...`
//! (everything after it is the server command), `-w/--workspace PATH`,
//! `-h/--help` and `-V/--version`.

use vstd::prelude::*;

use crate::text::{chars_match, chars_of, find_char, find_char_exec, string_from_chars};

verus! {

/// The parsed command line.
#[derive(Debug)]
pub struct Cli {
    /// File extensions to handle (can be specified multiple times)
    pub extension: Vec<String>,
    /// LSP server command and arguments
    pub server: Vec<String>,
    /// Workspace base directory (defaults to current directory)
    pub workspace: Option<String>,
}

/// One language server: the extensions it handles and how to start it.
#[derive(Debug)]
pub struct ServerSpec {
    pub extensions: Vec<String>,
    pub command: Vec<String>,
}

/// Why a command line was not accepted (or asked for help or the version).
#[derive(Clone, Copy, Debug, PartialEq, Eq, Structural)]
pub enum CliError {
    /// `-h` or `--help` was given.
    HelpRequested,
    /// `-V` or `--version` was given.
    VersionRequested,
    /// An option that takes a value got none.
    MissingValue,
    /// The workspace path is empty.
    EmptyValue,
    /// `--workspace` was given twice.
    RepeatedArgument,
    /// A flag that is not one of the command's.
    UnknownArgument,
    /// A value where no option expects one.
    UnexpectedArgument,
    /// `--help=...` or `--version=...`.
    UnneededValue,
    /// `--extension` or `--server` is missing.
    MissingRequiredArgument,
}

/// Why a command line gives no server specification.
#[derive(Clone, Copy, Debug, PartialEq, Eq, Structural)]
pub enum SpecError {
    /// at least one --extension must be specified
    NoExtension,
    /// --server command cannot be empty
    EmptyServerCommand,
}

/// Mathematical view of the strings of a vector.
pub open spec fn strings_view(v: Seq<String>) -> Seq<Seq<char>> {
    v.map_values(|s: String| s@)
}

/// Mathematical view of a command line.
pub struct CliView {
    pub extension: Seq<Seq<char>>,
    pub server: Seq<Seq<char>>,
    pub workspace: Option<Seq<char>>,
}

impl View for Cli {
    type V = CliView;

    open spec fn view(&self) -> CliView {
        CliView {
            extension: strings_view(self.extension@),
            server: strings_view(self.server@),
            workspace: match self.workspace {
                Some(w) => Some(w@),
                None => None,
            },
        }
    }
}

/// The option that waits for its value, if any.
#[derive(Clone, Copy, Debug, PartialEq, Eq, Structural)]
pub enum Pending {
    Nothing,
    Extension,
    Workspace,
    /// `--server` without an attached value: every later argument is one of
    /// its values.
    Server,
}

/// Where the reading of the arguments stands.
pub struct CliState {
    pub extension: Seq<Seq<char>>,
    pub server: Seq<Seq<char>>,
    pub workspace: Option<Seq<char>>,
    pub pending: Pending,
    /// Whether `--server` (in its waiting form) has got a value.
    pub server_got_value: bool,
    /// Whether `--` was met (no flag is read after it).
    pub trailing: bool,
}

/// The reading of the arguments: still going, or decided.
pub enum CliOutcome {
    Reading(CliState),
    Stopped(CliError),
}

pub open spec fn initial_state() -> CliState {
    CliState {
        extension: Seq::empty(),
        server: Seq::empty(),
        workspace: None,
        pending: Pending::Nothing,
        server_got_value: false,
        trailing: false,
    }
}

/// Gives a value to the workspace option: it must be non-empty and given once.
pub open spec fn set_workspace(st: CliState, v: Seq<char>) -> CliOutcome {
    if v.len() == 0 {
        CliOutcome::Stopped(CliError::EmptyValue)
    } else if st.workspace is Some {
        CliOutcome::Stopped(CliError::RepeatedArgument)
    } else {
        CliOutcome::Reading(CliState { workspace: Some(v), pending: Pending::Nothing, ..st })
    }
}

/// An option that takes a value met with the value attached (`Some`) or not.
pub open spec fn take_option(st: CliState, which: Pending, attached: Option<Seq<char>>) -> CliOutcome {
    match attached {
        Some(v) => match which {
            Pending::Extension => CliOutcome::Reading(CliState { extension: st.extension.push(v), ..st }),
            Pending::Server => CliOutcome::Reading(CliState { server: st.server.push(v), ..st }),
            _ => set_workspace(st, v),
        },
        None => CliOutcome::Reading(CliState { pending: which, server_got_value: false, ..st }),
    }
}

/// The option that a long name denotes.
pub open spec fn long_option(name: Seq<char>) -> Option<Pending> {
    if name == "extension"@ {
        Some(Pending::Extension)
    } else if name == "server"@ {
        Some(Pending::Server)
    } else if name == "workspace"@ {
        Some(Pending::Workspace)
    } else {
        None
    }
}

/// The option that a short letter denotes.
pub open spec fn short_option(c: char) -> Option<Pending> {
    if c == 'e' {
        Some(Pending::Extension)
    } else if c == 's' {
        Some(Pending::Server)
    } else if c == 'w' {
        Some(Pending::Workspace)
    } else {
        None
    }
}

/// A long flag `--name` or `--name=value` (the value after the first `=`).
pub open spec fn read_long(st: CliState, body: Seq<char>) -> CliOutcome {
    let (name, value) = match find_char(body, '=') {
        Some(k) => (body.take(k), Some(body.skip(k + 1))),
        None => (body, None),
    };
    match long_option(name) {
        Some(which) => take_option(st, which, value),
        None => if name == "help"@ {
            if value is None {
                CliOutcome::Stopped(CliError::HelpRequested)
            } else {
                CliOutcome::Stopped(CliError::UnneededValue)
            }
        } else if name == "version"@ {
            if value is None {
                CliOutcome::Stopped(CliError::VersionRequested)
            } else {
                CliOutcome::Stopped(CliError::UnneededValue)
            }
        } else {
            CliOutcome::Stopped(CliError::UnknownArgument)
        },
    }
}

/// A short flag `-c`, `-cVALUE` or `-c=VALUE`; only its first letter is a flag.
pub open spec fn read_short(st: CliState, body: Seq<char>) -> CliOutcome {
    let c = body[0];
    let rest = body.drop_first();
    if c == 'h' {
        CliOutcome::Stopped(CliError::HelpRequested)
    } else if c == 'V' {
        CliOutcome::Stopped(CliError::VersionRequested)
    } else {
        match short_option(c) {
            Some(which) => {
                let attached = if rest.len() == 0 {
                    None
                } else if rest[0] == '=' {
                    Some(rest.drop_first())
                } else {
                    Some(rest)
                };
                take_option(st, which, attached)
            },
            None => CliOutcome::Stopped(CliError::UnknownArgument),
        }
    }
}

/// Whether an argument looks like a flag: `-` followed by something.
pub open spec fn is_flag(tok: Seq<char>) -> bool {
    tok.len() >= 2 && tok[0] == '-'
}

/// Reading one argument.
pub open spec fn cli_step(o: CliOutcome, tok: Seq<char>) -> CliOutcome {
    match o {
        CliOutcome::Stopped(e) => CliOutcome::Stopped(e),
        CliOutcome::Reading(st) => {
            if st.pending == Pending::Server {
                CliOutcome::Reading(CliState { server: st.server.push(tok), server_got_value: true, ..st })
            } else if st.trailing {
                CliOutcome::Stopped(CliError::UnexpectedArgument)
            } else if tok == "--"@ {
                CliOutcome::Reading(CliState { trailing: true, ..st })
            } else if st.pending != Pending::Nothing {
                if is_flag(tok) {
                    CliOutcome::Stopped(CliError::MissingValue)
                } else if st.pending == Pending::Extension {
                    CliOutcome::Reading(CliState { extension: st.extension.push(tok), pending: Pending::Nothing, ..st })
                } else {
                    set_workspace(st, tok)
                }
            } else if is_flag(tok) && tok[1] == '-' {
                read_long(st, tok.skip(2))
            } else if is_flag(tok) {
                read_short(st, tok.drop_first())
            } else {
                CliOutcome::Stopped(CliError::UnexpectedArgument)
            }
        },
    }
}

/// Reading the arguments in order.
pub open spec fn cli_run(toks: Seq<Seq<char>>) -> CliOutcome
    decreases toks.len(),
{
    if toks.len() == 0 {
        CliOutcome::Reading(initial_state())
    } else {
        cli_step(cli_run(toks.drop_last()), toks.last())
    }
}

/// The end of the arguments: no option may wait for a value, and both
/// `--extension` and `--server` must have been given.
pub open spec fn cli_finish(o: CliOutcome) -> Result<CliView, CliError> {
    match o {
        CliOutcome::Stopped(e) => Err(e),
        CliOutcome::Reading(st) => {
            if st.pending == Pending::Extension || st.pending == Pending::Workspace
                || (st.pending == Pending::Server && !st.server_got_value) {
                Err(CliError::MissingValue)
            } else if st.extension.len() == 0 || st.server.len() == 0 {
                Err(CliError::MissingRequiredArgument)
            } else {
                Ok(CliView { extension: st.extension, server: st.server, workspace: st.workspace })
            }
        },
    }
}

/// The command line that the arguments (program name first) give.
pub open spec fn spec_parse_cli(args: Seq<Seq<char>>) -> Result<CliView, CliError> {
    if args.len() == 0 {
        cli_finish(cli_run(Seq::empty()))
    } else {
        cli_finish(cli_run(args.drop_first()))
    }
}

/// The arguments read so far, as values.
struct ArgReader {
    extension: Vec<String>,
    server: Vec<String>,
    workspace: Option<String>,
    pending: Pending,
    server_got_value: bool,
    trailing: bool,
}

impl ArgReader {
    spec fn state(&self) -> CliState {
        CliState {
            extension: strings_view(self.extension@),
            server: strings_view(self.server@),
            workspace: match self.workspace {
                Some(w) => Some(w@),
                None => None,
            },
            pending: self.pending,
            server_got_value: self.server_got_value,
            trailing: self.trailing,
        }
    }

    /// Gives the workspace option its value.
    fn set_workspace(&mut self, v: String) -> (res: Option<CliError>)
        ensures
            match set_workspace(old(self).state(), v@) {
                CliOutcome::Reading(st) => res is None && final(self).state() == st,
                CliOutcome::Stopped(e) => res == Some(e),
            },
    {
        if v.as_str().is_empty() {
            return Some(CliError::EmptyValue);
        }
        if self.workspace.is_some() {
            return Some(CliError::RepeatedArgument);
        }
        self.workspace = Some(v);
        self.pending = Pending::Nothing;
        None
    }

    /// An option that takes a value, with the value attached or not.
    fn take_option(&mut self, which: Pending, attached: Option<String>) -> (res: Option<CliError>)
        requires
            which != Pending::Nothing,
        ensures
            match take_option(
                old(self).state(),
                which,
                match attached {
                    Some(v) => Some(v@),
                    None => None,
                },
            ) {
                CliOutcome::Reading(st) => res is None && final(self).state() == st,
                CliOutcome::Stopped(e) => res == Some(e),
            },
    {
        match attached {
            Some(v) => match which {
                Pending::Extension => {
                    let ghost before = self.extension@;
                    self.extension.push(v);
                    assert(strings_view(self.extension@) =~= strings_view(before).push(v@));
                    None
                },
                Pending::Server => {
                    let ghost before = self.server@;
                    self.server.push(v);
                    assert(strings_view(self.server@) =~= strings_view(before).push(v@));
                    None
                },
                _ => self.set_workspace(v),
            },
            None => {
                self.pending = which;
                self.server_got_value = false;
                None
            },
        }
    }

    /// A long flag; `chars` is the whole argument, starting with `--`.
    fn read_long(&mut self, chars: &Vec<char>) -> (res: Option<CliError>)
        requires
            chars.len() > 2,
        ensures
            match read_long(old(self).state(), chars@.skip(2)) {
                CliOutcome::Reading(st) => res is None && final(self).state() == st,
                CliOutcome::Stopped(e) => res == Some(e),
            },
    {
        let body_str = string_from_chars(chars, 2, chars.len());
        let body = chars_of(body_str.as_str());
        assert(body@ =~= chars@.skip(2));
        let (name_end, value) = match find_char_exec(&body, '=') {
            Some(k) => {
                let v = string_from_chars(&body, k + 1, body.len());
                assert(body@.subrange(k + 1, body@.len() as int) =~= body@.skip(k + 1));
                (k, Some(v))
            },
            None => (body.len(), None),
        };
        assert(body@.subrange(0, name_end as int) =~= (if name_end < body.len() { body@.take(name_end as int) } else { body@ }));
        if chars_match(&body, 0, name_end, "extension") {
            self.take_option(Pending::Extension, value)
        } else if chars_match(&body, 0, name_end, "server") {
            self.take_option(Pending::Server, value)
        } else if chars_match(&body, 0, name_end, "workspace") {
            self.take_option(Pending::Workspace, value)
        } else if chars_match(&body, 0, name_end, "help") {
            if value.is_none() {
                Some(CliError::HelpRequested)
            } else {
                Some(CliError::UnneededValue)
            }
        } else if chars_match(&body, 0, name_end, "version") {
            if value.is_none() {
                Some(CliError::VersionRequested)
            } else {
                Some(CliError::UnneededValue)
            }
        } else {
            Some(CliError::UnknownArgument)
        }
    }

    /// A short flag; `chars` is the whole argument, starting with `-`.
    fn read_short(&mut self, chars: &Vec<char>) -> (res: Option<CliError>)
        requires
            chars.len() >= 2,
        ensures
            match read_short(old(self).state(), chars@.drop_first()) {
                CliOutcome::Reading(st) => res is None && final(self).state() == st,
                CliOutcome::Stopped(e) => res == Some(e),
            },
    {
        let ghost body = chars@.drop_first();
        let c = chars[1];
        assert(body[0] == c);
        if c == 'h' {
            return Some(CliError::HelpRequested);
        }
        if c == 'V' {
            return Some(CliError::VersionRequested);
        }
        let which = if c == 'e' {
            Pending::Extension
        } else if c == 's' {
            Pending::Server
        } else if c == 'w' {
            Pending::Workspace
        } else {
            return Some(CliError::UnknownArgument);
        };
        let ghost rest = body.drop_first();
        assert(rest =~= chars@.subrange(2, chars@.len() as int));
        let attached = if chars.len() == 2 {
            None
        } else if chars[2] == '=' {
            assert(rest.drop_first() =~= chars@.subrange(3, chars@.len() as int));
            Some(string_from_chars(chars, 3, chars.len()))
        } else {
            Some(string_from_chars(chars, 2, chars.len()))
        };
        self.take_option(which, attached)
    }

    /// Reads one argument.
    fn step(&mut self, tok: &String) -> (res: Option<CliError>)
        ensures
            match cli_step(CliOutcome::Reading(old(self).state()), tok@) {
                CliOutcome::Reading(st) => res is None && final(self).state() == st,
                CliOutcome::Stopped(e) => res == Some(e),
            },
    {
        let chars = chars_of(tok.as_str());
        if self.pending == Pending::Server {
            let ghost before = self.server@;
            self.server.push(tok.clone());
            assert(strings_view(self.server@) =~= strings_view(before).push(tok@));
            self.server_got_value = true;
            return None;
        }
        if self.trailing {
            return Some(CliError::UnexpectedArgument);
        }
        if chars_match(&chars, 0, chars.len(), "--") {
            assert(chars@.subrange(0, chars@.len() as int) =~= chars@);
            self.trailing = true;
            return None;
        }
        assert(chars@.subrange(0, chars@.len() as int) =~= chars@);
        let flag = chars.len() >= 2 && chars[0] == '-';
        if self.pending != Pending::Nothing {
            if flag {
                return Some(CliError::MissingValue);
            }
            if self.pending == Pending::Extension {
                let ghost before = self.extension@;
                self.extension.push(tok.clone());
                assert(strings_view(self.extension@) =~= strings_view(before).push(tok@));
                self.pending = Pending::Nothing;
                return None;
            }
            return self.set_workspace(tok.clone());
        }
        if flag && chars[1] == '-' {
            if chars.len() == 2 {
                assert(chars@ =~= "--"@) by {
                    reveal_strlit("--");
                }
            }
            self.read_long(&chars)
        } else if flag {
            self.read_short(&chars)
        } else {
            Some(CliError::UnexpectedArgument)
        }
    }
}

impl Cli {
    /// Reads a command line, the program name first (as `std::env::args`
    /// gives it).
    pub fn try_parse_from(args: &Vec<String>) -> (res: Result<Cli, CliError>)
        ensures
            match res {
                Ok(cli) => spec_parse_cli(strings_view(args@)) == Ok::<CliView, CliError>(cli@),
                Err(e) => spec_parse_cli(strings_view(args@)) == Err::<CliView, CliError>(e),
            },
    {
        let ghost all = strings_view(args@);
        let ghost toks = if all.len() == 0 { Seq::<Seq<char>>::empty() } else { all.drop_first() };
        let mut reader = ArgReader {
            extension: Vec::new(),
            server: Vec::new(),
            workspace: None,
            pending: Pending::Nothing,
            server_got_value: false,
            trailing: false,
        };
        assert(strings_view(reader.extension@) =~= Seq::<Seq<char>>::empty());
        assert(strings_view(reader.server@) =~= Seq::<Seq<char>>::empty());
        assert(toks.take(0) =~= Seq::<Seq<char>>::empty());
        assert(reader.state() == initial_state());
        let mut i: usize = 1;
        while i < args.len()
            invariant
                1 <= i,
                all == strings_view(args@),
                toks == (if all.len() == 0 { Seq::<Seq<char>>::empty() } else { all.drop_first() }),
                i <= args.len() || i == 1,
                cli_run(toks.take(i - 1)) == CliOutcome::Reading(reader.state()),
            decreases args.len() - i,
        {
            assert(toks.take(i as int).drop_last() =~= toks.take(i - 1));
            assert(toks.take(i as int).last() == args@[i as int]@);
            match reader.step(&args[i]) {
                Some(e) => {
                    proof {
                        lemma_stopped_stays(toks, i as int, e);
                    }
                    return Err(e);
                },
                None => {},
            }
            i = i + 1;
        }
        assert(all.len() == args.len());
        if args.len() > 0 {
            assert(i == args.len());
            assert(toks == all.drop_first());
            assert(toks.len() == i - 1);
            assert(toks.take(i - 1) =~= toks);
        } else {
            assert(toks =~= Seq::<Seq<char>>::empty());
            assert(toks.take(i - 1) =~= toks);
        }
        if reader.pending == Pending::Extension || reader.pending == Pending::Workspace
            || (reader.pending == Pending::Server && !reader.server_got_value) {
            return Err(CliError::MissingValue);
        }
        if reader.extension.len() == 0 || reader.server.len() == 0 {
            return Err(CliError::MissingRequiredArgument);
        }
        let cli = Cli { extension: reader.extension, server: reader.server, workspace: reader.workspace };
        Ok(cli)
    }

    /// The server specification that the command line gives: one server with
    /// the given extensions and command.
    pub fn to_server_specs(self) -> (res: Result<Vec<ServerSpec>, SpecError>)
        ensures
            self.extension.len() == 0 ==> res == Err::<Vec<ServerSpec>, SpecError>(SpecError::NoExtension),
            self.extension.len() > 0 && self.server.len() == 0 ==> res == Err::<Vec<ServerSpec>, SpecError>(
                SpecError::EmptyServerCommand,
            ),
            self.extension.len() > 0 && self.server.len() > 0 ==> (res matches Ok(specs) && specs.len() == 1
                && specs[0].extensions@ == self.extension@ && specs[0].command@ == self.server@),
    {
        if self.extension.len() == 0 {
            return Err(SpecError::NoExtension);
        }
        if self.server.len() == 0 {
            return Err(SpecError::EmptyServerCommand);
        }
        Ok(vec![ServerSpec { extensions: self.extension, command: self.server }])
    }
}

/// Once reading stops on an error, later arguments do not change it.
proof fn lemma_stopped_stays(toks: Seq<Seq<char>>, i: int, e: CliError)
    requires
        0 <= i <= toks.len(),
        cli_run(toks.take(i)) == CliOutcome::Stopped(e),
    ensures
        cli_run(toks) == CliOutcome::Stopped(e),
    decreases toks.len() - i,
{
    if i < toks.len() {
        assert(toks.take(i + 1).drop_last() =~= toks.take(i));
        lemma_stopped_stays(toks, i + 1, e);
    } else {
        assert(toks.take(i) =~= toks);
    }
}

/// Once `--server` waits for values, every later argument is one of them.
proof fn lemma_server_collects(base: Seq<Seq<char>>, rest: Seq<Seq<char>>)
    requires
        cli_run(base) matches CliOutcome::Reading(st) && st.pending == Pending::Server,
    ensures
        match cli_run(base) {
            CliOutcome::Reading(st) => cli_run(base + rest) == CliOutcome::Reading(CliState {
                server: st.server + rest,
                server_got_value: st.server_got_value || rest.len() > 0,
                ..st
            }),
            _ => true,
        },
    decreases rest.len(),
{
    if rest.len() == 0 {
        assert(base + rest =~= base);
        if let CliOutcome::Reading(st) = cli_run(base) {
            assert(st.server + rest =~= st.server);
        }
    } else {
        lemma_server_collects(base, rest.drop_last());
        assert((base + rest).drop_last() =~= base + rest.drop_last());
        assert((base + rest).last() == rest.last());
        if let CliOutcome::Reading(st) = cli_run(base) {
            assert((st.server + rest.drop_last()).push(rest.last()) =~= st.server + rest);
        }
    }
}

/// Everything after `--server` (or `-s`) is the server command: once the
/// arguments read so far leave no option waiting and no `--` met, the
/// server flag followed by any arguments `rest` adds exactly `rest`, in
/// order, to the server command, whatever `rest` holds (flags and `--`
/// included).
pub proof fn law_server_takes_rest(prefix: Seq<Seq<char>>, flag: Seq<char>, rest: Seq<Seq<char>>)
    requires
        flag == "-s"@ || flag == "--server"@,
        cli_run(prefix) matches CliOutcome::Reading(st) && st.pending == Pending::Nothing && !st.trailing,
    ensures
        match cli_run(prefix) {
            CliOutcome::Reading(st) => cli_run(prefix + seq![flag] + rest) == CliOutcome::Reading(CliState {
                server: st.server + rest,
                pending: Pending::Server,
                server_got_value: rest.len() > 0,
                ..st
            }),
            _ => true,
        },
{
    reveal_strlit("-s");
    reveal_strlit("--server");
    reveal_strlit("--");
    reveal_strlit("server");
    reveal_strlit("extension");
    let base = prefix + seq![flag];
    assert(base.drop_last() =~= prefix);
    assert(base.last() == flag);
    if let CliOutcome::Reading(st) = cli_run(prefix) {
        assert(flag != "--"@);
        assert(is_flag(flag));
        if flag == "--server"@ {
            let body = flag.skip(2);
            assert(body =~= "server"@);
            assert forall|j: int| 0 <= j < body.len() implies body[j] != '=' by {}
            crate::text::lemma_find_char(body, '=', body.len() as int);
            assert(long_option(body) == Some(Pending::Server));
        } else {
            assert(flag.drop_first().drop_first().len() == 0);
        }
        assert(cli_run(base) == CliOutcome::Reading(CliState { pending: Pending::Server, server_got_value: false, ..st }));
        lemma_server_collects(base, rest);
    }
}

/// A command line that is read successfully names at least one extension and
/// a non-empty server command.
pub proof fn law_parsed_cli_is_complete(args: Seq<Seq<char>>)
    requires
        spec_parse_cli(args) is Ok,
    ensures
        spec_parse_cli(args)->Ok_0.extension.len() > 0,
        spec_parse_cli(args)->Ok_0.server.len() > 0,
{
}

/// An option met in its long form (`--extension`, `--server`,
/// `--workspace`) without an attached value behaves like its short form
/// (`-e`, `-s`, `-w`): one argument read in either form leads to the same
/// state, so a value given as the next argument is taken the same way, and
/// any arguments that follow are read the same way. This holds wherever the
/// arguments read so far do not make every later argument part of the
/// server command (there the flag itself is taken as a word of the command).
pub proof fn law_long_and_short_forms_agree(
    prefix: Seq<Seq<char>>,
    long: Seq<char>,
    short: Seq<char>,
    rest: Seq<Seq<char>>,
)
    requires
        (long == "--extension"@ && short == "-e"@) || (long == "--server"@ && short == "-s"@)
            || (long == "--workspace"@ && short == "-w"@),
        !(cli_run(prefix) matches CliOutcome::Reading(st) && st.pending == Pending::Server),
    ensures
        cli_run(prefix + seq![long] + rest) == cli_run(prefix + seq![short] + rest),
    decreases rest.len(),
{
    if rest.len() == 0 {
        assert(prefix + seq![long] + rest =~= prefix + seq![long]);
        assert(prefix + seq![short] + rest =~= prefix + seq![short]);
        lemma_long_and_short_step(prefix, long, short);
    } else {
        law_long_and_short_forms_agree(prefix, long, short, rest.drop_last());
        assert((prefix + seq![long] + rest).drop_last() =~= prefix + seq![long] + rest.drop_last());
        assert((prefix + seq![short] + rest).drop_last() =~= prefix + seq![short] + rest.drop_last());
        assert((prefix + seq![long] + rest).last() == rest.last());
        assert((prefix + seq![short] + rest).last() == rest.last());
    }
}

/// One argument in the long form and in the short form leads to the same state.
proof fn lemma_long_and_short_step(prefix: Seq<Seq<char>>, long: Seq<char>, short: Seq<char>)
    requires
        (long == "--extension"@ && short == "-e"@) || (long == "--server"@ && short == "-s"@)
            || (long == "--workspace"@ && short == "-w"@),
        !(cli_run(prefix) matches CliOutcome::Reading(st) && st.pending == Pending::Server),
    ensures
        cli_run(prefix + seq![long]) == cli_run(prefix + seq![short]),
{
    reveal_strlit("--extension");
    reveal_strlit("--server");
    reveal_strlit("--workspace");
    reveal_strlit("-e");
    reveal_strlit("-s");
    reveal_strlit("-w");
    reveal_strlit("--");
    reveal_strlit("extension");
    reveal_strlit("server");
    reveal_strlit("workspace");
    let pl = prefix + seq![long];
    let ps = prefix + seq![short];
    assert(pl.drop_last() =~= prefix);
    assert(ps.drop_last() =~= prefix);
    assert(pl.last() == long);
    assert(ps.last() == short);
    assert(long != "--"@);
    assert(short != "--"@);
    assert(is_flag(long) && long[1] == '-');
    assert(is_flag(short) && short[1] != '-');
    let body = long.skip(2);
    assert forall|j: int| 0 <= j < body.len() implies body[j] != '=' by {}
    crate::text::lemma_find_char(body, '=', body.len() as int);
    let sb = short.drop_first();
    assert(sb.drop_first().len() == 0);
    if long == "--extension"@ {
        assert(body =~= "extension"@);
        assert(long_option(body) == Some(Pending::Extension));
        assert(short_option(sb[0]) == Some(Pending::Extension));
    } else if long == "--server"@ {
        assert(body =~= "server"@);
        assert(long_option(body) == Some(Pending::Server));
        assert(short_option(sb[0]) == Some(Pending::Server));
    } else {
        assert(body =~= "workspace"@);
        assert(body != "extension"@);
        assert(body != "server"@);
        assert(long_option(body) == Some(Pending::Workspace));
        assert(short_option(sb[0]) == Some(Pending::Workspace));
    }
}

/// An option followed by its value as the next argument takes that value:
/// `-e EXT` adds `EXT` to the extensions, `-w PATH` sets the workspace to
/// `PATH` (when it is not set yet and `PATH` is not empty), and nothing else
/// changes. The value must not look like a flag nor be `--`.
pub proof fn law_option_takes_next_value(prefix: Seq<Seq<char>>, flag: Seq<char>, value: Seq<char>)
    requires
        flag == "-e"@ || flag == "-w"@,
        cli_run(prefix) matches CliOutcome::Reading(st) && st.pending == Pending::Nothing && !st.trailing,
        !is_flag(value),
        value != "--"@,
    ensures
        match cli_run(prefix) {
            CliOutcome::Reading(st) => {
                &&& flag == "-e"@ ==> cli_run(prefix + seq![flag, value]) == CliOutcome::Reading(
                    CliState { extension: st.extension.push(value), server_got_value: false, ..st },
                )
                &&& flag == "-w"@ && st.workspace is None && value.len() > 0 ==> cli_run(prefix + seq![flag, value])
                    == CliOutcome::Reading(CliState { workspace: Some(value), server_got_value: false, ..st })
            },
            _ => true,
        },
{
    reveal_strlit("-e");
    reveal_strlit("-w");
    reveal_strlit("--");
    let p1 = prefix + seq![flag];
    let p2 = prefix + seq![flag, value];
    assert(p1.drop_last() =~= prefix);
    assert(p2.drop_last() =~= p1);
    assert(p1.last() == flag);
    assert(p2.last() == value);
    assert(flag[1] != "--"@[1]);
    assert(flag != "--"@);
    assert(is_flag(flag) && flag[1] != '-');
    assert(flag.drop_first().drop_first().len() == 0);
    if let CliOutcome::Reading(st) = cli_run(prefix) {
        let which = if flag == "-e"@ { Pending::Extension } else { Pending::Workspace };
        assert(short_option(flag.drop_first()[0]) == Some(which));
        assert(cli_run(p1) == CliOutcome::Reading(CliState { pending: which, server_got_value: false, ..st }));
    }
}

} // verus!
