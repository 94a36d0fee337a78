//! The command model, the resolver, and the dispatcher.
//!
//! A token list resolves to a typed `Command`: one of the builtins
//! `exit`, `echo`, `pwd`, `cd` and `type`, or an external command.
//! Resolution is total but for the empty token list. Dispatch maps a
//! resolved command to the `Action` it asks for; the caller performs
//! the action (print, change directory, terminate, spawn) and supplies
//! the two outside facts dispatch may need: the home directory and the
//! PATH search result.

use vstd::prelude::*;
use crate::numbers::{dec_repr, lemma_dec_repr_parses, parse_i32, spec_parse_i32};
use crate::parser::{spec_tokenize, tokenize};
use crate::path::{expand_tilde, opt_view, spec_expand_tilde};

verus! {

/// Whether a command name is one of the fixed builtins.
pub open spec fn is_builtin_name(s: Seq<char>) -> bool {
    s == "exit"@ || s == "echo"@ || s == "pwd"@ || s == "cd"@ || s == "type"@
}

/// Whether a command name is handled by the interpreter itself
/// (`Builtin`) or left to PATH search (`Unknown`).
#[derive(Clone, Copy, PartialEq, Eq, Structural, Debug)]
pub enum Classification {
    Builtin,
    Unknown,
}

/// The payload of a resolved command.
#[derive(Debug)]
pub enum CommandType {
    /// Terminate with this status.
    Exit(i32),
    /// Print this text.
    Echo { value: String },
    /// Report the classification of the wrapped command.
    Type(Box<Command>),
    /// Print the working directory.
    Pwd,
    /// Change the working directory to this path.
    Cd { path: String },
    /// An external command with its argument list.
    Other { name: String, parameters: Vec<String> },
}

/// A resolved command: its name, its classification, and its payload.
#[derive(Debug)]
pub struct Command {
    pub name: String,
    pub typ: Classification,
    pub command_type: CommandType,
}

/// The mathematical content of a command payload.
#[verifier::ext_equal]
pub enum SpecCommandType {
    Exit(int),
    Echo(Seq<char>),
    Type(Box<SpecCommand>),
    Pwd,
    Cd(Seq<char>),
    Other(Seq<char>, Seq<Seq<char>>),
}

/// The mathematical content of a resolved command.
#[verifier::ext_equal]
pub struct SpecCommand {
    pub name: Seq<char>,
    pub typ: Classification,
    pub command_type: SpecCommandType,
}

/// The arguments of a command joined back into one string with single
/// spaces.
pub open spec fn spec_join(parts: Seq<Seq<char>>) -> Seq<char>
    decreases parts.len(),
{
    if parts.len() == 0 {
        Seq::empty()
    } else if parts.len() == 1 {
        parts[0]
    } else {
        parts[0] + seq![' '] + spec_join(parts.subrange(1, parts.len() as int))
    }
}

/// The exit status named by the argument text: its value as a 32-bit
/// integer, or 0 when it has none.
pub open spec fn spec_exit_code(s: Seq<char>) -> int {
    match spec_parse_i32(s) {
        Some(v) => v,
        None => 0,
    }
}

/// The command a token list resolves to: the first token names it, the
/// rest are its arguments; `None` for the empty list, and for `type`
/// whose own arguments resolve to nothing.
pub open spec fn spec_resolve(toks: Seq<Seq<char>>) -> Option<SpecCommand>
    decreases toks.len(),
{
    if toks.len() == 0 {
        None
    } else {
        let name = toks[0];
        let args = toks.subrange(1, toks.len() as int);
        if name == "exit"@ {
            Some(SpecCommand {
                name,
                typ: Classification::Builtin,
                command_type: SpecCommandType::Exit(spec_exit_code(spec_join(args))),
            })
        } else if name == "echo"@ {
            Some(SpecCommand {
                name,
                typ: Classification::Builtin,
                command_type: SpecCommandType::Echo(spec_join(args)),
            })
        } else if name == "pwd"@ {
            Some(SpecCommand {
                name,
                typ: Classification::Builtin,
                command_type: SpecCommandType::Pwd,
            })
        } else if name == "cd"@ {
            Some(SpecCommand {
                name,
                typ: Classification::Builtin,
                command_type: SpecCommandType::Cd(spec_join(args)),
            })
        } else if name == "type"@ {
            match spec_resolve(args) {
                Some(inner) => Some(SpecCommand {
                    name,
                    typ: Classification::Builtin,
                    command_type: SpecCommandType::Type(Box::new(inner)),
                }),
                None => None,
            }
        } else {
            Some(SpecCommand {
                name,
                typ: Classification::Unknown,
                command_type: SpecCommandType::Other(name, args),
            })
        }
    }
}

/// Appending one part joins it after a single space, unless it is the
/// first.
pub proof fn lemma_join_snoc(parts: Seq<Seq<char>>, x: Seq<char>)
    ensures
        parts.len() == 0 ==> spec_join(parts.push(x)) == x,
        parts.len() > 0 ==> spec_join(parts.push(x)) == spec_join(parts) + seq![' '] + x,
    decreases parts.len(),
{
    let q = parts.push(x);
    if parts.len() == 0 {
        assert(q[0] == x);
    } else {
        assert(q[0] == parts[0]);
        assert(q.subrange(1, q.len() as int) =~= parts.subrange(1, parts.len() as int).push(x));
        lemma_join_snoc(parts.subrange(1, parts.len() as int), x);
        if parts.len() == 1 {
            assert(parts.subrange(1, 1) =~= Seq::<Seq<char>>::empty());
        } else {
            let t = parts.subrange(1, parts.len() as int);
            assert((parts[0] + seq![' ']) + (spec_join(t) + seq![' '] + x) =~= (parts[0] + seq![' ']
                + spec_join(t)) + seq![' '] + x);
        }
    }
}

/// Character-for-character equality of two strings.
pub fn str_eq(a: &str, b: &str) -> (r: bool)
    ensures
        r == (a@ == b@),
{
    let n: usize = a.unicode_len();
    if n != b.unicode_len() {
        return false;
    }
    let mut i: usize = 0;
    while i < n
        invariant
            i <= n,
            n == a@.len(),
            n == b@.len(),
            forall|j: int| 0 <= j < i ==> a@[j] == b@[j],
        decreases n - i,
    {
        if a.get_char(i) != b.get_char(i) {
            return false;
        }
        i += 1;
    }
    proof {
        assert(a@ =~= b@);
    }
    true
}

/// Classifies a name against the fixed builtin set.
pub fn classify(name: &str) -> (r: Classification)
    ensures
        r == Classification::Builtin <==> is_builtin_name(name@),
        r == Classification::Unknown <==> !is_builtin_name(name@),
{
    if str_eq(name, "exit") || str_eq(name, "echo") || str_eq(name, "pwd") || str_eq(name, "cd")
        || str_eq(name, "type") {
        Classification::Builtin
    } else {
        Classification::Unknown
    }
}

/// Joins `parts[start..]` with single spaces.
pub fn join_from(parts: &Vec<String>, start: usize) -> (r: String)
    requires
        start <= parts@.len(),
    ensures
        r@ == spec_join(parts.deep_view().subrange(start as int, parts@.len() as int)),
{
    let ghost dv = parts.deep_view();
    let mut r = String::new();
    proof {
        assert(dv.subrange(start as int, start as int) =~= Seq::<Seq<char>>::empty());
    }
    let mut i: usize = start;
    while i < parts.len()
        invariant
            start <= i <= parts@.len(),
            dv == parts.deep_view(),
            r@ == spec_join(dv.subrange(start as int, i as int)),
        decreases parts@.len() - i,
    {
        proof {
            assert(dv.subrange(start as int, i + 1) =~= dv.subrange(start as int, i as int).push(
                dv[i as int],
            ));
            lemma_join_snoc(dv.subrange(start as int, i as int), dv[i as int]);
        }
        if i > start {
            r.append(" ");
            proof {
                reveal_strlit(" ");
                assert(" "@ =~= seq![' ']);
            }
        }
        r.append(parts[i].as_str());
        i += 1;
    }
    r
}

/// Clones `tokens[start..]`.
fn tail_from(tokens: &Vec<String>, start: usize) -> (r: Vec<String>)
    requires
        start <= tokens@.len(),
    ensures
        r.deep_view() == tokens.deep_view().subrange(start as int, tokens@.len() as int),
{
    let ghost dv = tokens.deep_view();
    let mut r: Vec<String> = Vec::new();
    proof {
        assert(r.deep_view() =~= dv.subrange(start as int, start as int));
    }
    let mut i: usize = start;
    while i < tokens.len()
        invariant
            start <= i <= tokens@.len(),
            dv == tokens.deep_view(),
            r.deep_view() == dv.subrange(start as int, i as int),
        decreases tokens@.len() - i,
    {
        let ghost prev = r.deep_view();
        r.push(tokens[i].clone());
        proof {
            assert(r.deep_view() =~= prev.push(dv[i as int]));
            assert(dv.subrange(start as int, i + 1) =~= dv.subrange(start as int, i as int).push(
                dv[i as int],
            ));
        }
        i += 1;
    }
    r
}

/// The one construction error: resolving an empty token list.
#[derive(Clone, Copy, PartialEq, Eq, Structural, Debug)]
pub enum ResolveError {
    EmptyCommand,
}

/// The effect a dispatched command asks its caller to perform.
pub enum Action {
    /// Terminate the process with this exit status.
    Terminate(i32),
    /// Write this line to standard output.
    PrintLine(String),
    /// Write the current working directory to standard output.
    PrintWorkingDir,
    /// Change the working directory to this path.
    ChangeDir(String),
    /// Run this executable with this single argument and copy its
    /// standard output through.
    RunProgram { path: String, arg: String },
}

impl Command {
    /// The mathematical content of this command.
    pub open spec fn model(self) -> SpecCommand
        decreases self,
    {
        SpecCommand {
            name: self.name@,
            typ: self.typ,
            command_type: match self.command_type {
                CommandType::Exit(code) => SpecCommandType::Exit(code as int),
                CommandType::Echo { value } => SpecCommandType::Echo(value@),
                CommandType::Type(inner) => SpecCommandType::Type(Box::new(inner.model())),
                CommandType::Pwd => SpecCommandType::Pwd,
                CommandType::Cd { path } => SpecCommandType::Cd(path@),
                CommandType::Other { name, parameters } => SpecCommandType::Other(
                    name@,
                    parameters.deep_view(),
                ),
            },
        }
    }

    /// Builds the typed command a token list names. The first token is
    /// the command name; the rest are its arguments, re-joined with
    /// single spaces where a builtin takes one string. Construction is
    /// total but for the empty list, which is the one construction
    /// error; an unrecognized name always resolves to an external
    /// command.
    pub fn resolve(tokens: &Vec<String>) -> (r: Result<Command, ResolveError>)
        ensures
            match r {
                Ok(c) => spec_resolve(tokens.deep_view()) == Some(c.model()),
                Err(e) => spec_resolve(tokens.deep_view()) is None && e == ResolveError::EmptyCommand,
            },
        decreases tokens@.len(),
    {
        let ghost dv = tokens.deep_view();
        if tokens.len() == 0 {
            return Err(ResolveError::EmptyCommand);
        }
        let name = tokens[0].clone();
        let ghost args = dv.subrange(1, dv.len() as int);
        if str_eq(name.as_str(), "exit") {
            let joined = join_from(tokens, 1);
            let code: i32 = match parse_i32(joined.as_str()) {
                Some(v) => v,
                None => 0,
            };
            let c = Command {
                name,
                typ: Classification::Builtin,
                command_type: CommandType::Exit(code),
            };
            proof {
                assert(Some(c.model()) =~= spec_resolve(dv));
            }
            Ok(c)
        } else if str_eq(name.as_str(), "echo") {
            let joined = join_from(tokens, 1);
            let c = Command {
                name,
                typ: Classification::Builtin,
                command_type: CommandType::Echo { value: joined },
            };
            proof {
                assert(Some(c.model()) =~= spec_resolve(dv));
            }
            Ok(c)
        } else if str_eq(name.as_str(), "pwd") {
            let c = Command { name, typ: Classification::Builtin, command_type: CommandType::Pwd };
            proof {
                assert(Some(c.model()) =~= spec_resolve(dv));
            }
            Ok(c)
        } else if str_eq(name.as_str(), "cd") {
            let joined = join_from(tokens, 1);
            let c = Command {
                name,
                typ: Classification::Builtin,
                command_type: CommandType::Cd { path: joined },
            };
            proof {
                assert(Some(c.model()) =~= spec_resolve(dv));
            }
            Ok(c)
        } else if str_eq(name.as_str(), "type") {
            let rest = tail_from(tokens, 1);
            match Command::resolve(&rest) {
                Ok(inner) => {
                    let c = Command {
                        name,
                        typ: Classification::Builtin,
                        command_type: CommandType::Type(Box::new(inner)),
                    };
                    proof {
                        assert(Some(c.model()) =~= spec_resolve(dv));
                    }
                    Ok(c)
                },
                Err(e) => Err(e),
            }
        } else {
            let parameters = tail_from(tokens, 1);
            let c = Command {
                name: name.clone(),
                typ: Classification::Unknown,
                command_type: CommandType::Other { name, parameters },
            };
            proof {
                assert(Some(c.model()) =~= spec_resolve(dv));
            }
            Ok(c)
        }
    }

    /// Resolves a whole input line: tokenizes it, then resolves the
    /// token list. The empty-command error comes exactly on a line
    /// whose tokens resolve to nothing: one that is empty or all
    /// whitespace, or `type` with nothing resolvable after it.
    pub fn resolve_line(input: &str) -> (r: Result<Command, ResolveError>)
        ensures
            match r {
                Ok(c) => spec_resolve(spec_tokenize(input@)) == Some(c.model()),
                Err(e) => spec_resolve(spec_tokenize(input@)) is None && e
                    == ResolveError::EmptyCommand,
            },
    {
        let tokens = tokenize(input);
        Command::resolve(&tokens)
    }

    /// The name dispatch will look up on PATH, if any: the target of
    /// `type` when that target is not a builtin, or an external
    /// command's own name.
    pub fn lookup_name(&self) -> (r: Option<&String>)
        ensures
            match self.command_type {
                CommandType::Type(inner) => {
                    &&& inner.typ == Classification::Unknown ==> (r matches Some(n) && n@
                        == inner.name@)
                    &&& inner.typ == Classification::Builtin ==> r is None
                },
                CommandType::Other { name, .. } => r matches Some(n) && n@ == name@,
                _ => r is None,
            },
    {
        match &self.command_type {
            CommandType::Type(inner) => match inner.typ {
                Classification::Unknown => Some(&inner.name),
                Classification::Builtin => None,
            },
            CommandType::Other { name, .. } => Some(name),
            _ => None,
        }
    }

    /// Maps this command to the effect it asks for. `home` is the value
    /// of the home-directory variable, if set; `found` is the PATH
    /// search result for `lookup_name`, if any. The mapping is exact:
    /// `exit` terminates with its status, `echo` prints its text, `cd`
    /// changes to its tilde-expanded path, `type` reports the target's
    /// classification or its resolved path, and an external command
    /// runs its resolved file with the arguments joined into one
    /// string, or reports `not found`.
    pub fn dispatch(&self, home: Option<&String>, found: Option<&String>) -> (a: Action)
        ensures
            match self.command_type {
                CommandType::Exit(code) => a == Action::Terminate(code),
                CommandType::Echo { value } => a matches Action::PrintLine(t) && t@ == value@,
                CommandType::Pwd => a == Action::PrintWorkingDir,
                CommandType::Cd { path } => a matches Action::ChangeDir(p) && p@
                    == spec_expand_tilde(path@, opt_view(home)),
                CommandType::Type(inner) => {
                    &&& inner.typ == Classification::Builtin ==> (a matches Action::PrintLine(t)
                        && t@ == inner.name@ + " is a shell builtin"@)
                    &&& inner.typ == Classification::Unknown ==> (found matches Some(p)
                        ==> (a matches Action::PrintLine(t) && t@ == inner.name@ + " is "@ + p@))
                    &&& inner.typ == Classification::Unknown && found is None
                        ==> (a matches Action::PrintLine(t) && t@ == inner.name@ + ": not found"@)
                },
                CommandType::Other { name, parameters } => {
                    &&& found matches Some(p) ==> (a matches Action::RunProgram { path, arg }
                        && path@ == p@ && arg@ == spec_join(parameters.deep_view()))
                    &&& found is None ==> (a matches Action::PrintLine(t) && t@ == name@
                        + ": not found"@)
                },
            },
    {
        match &self.command_type {
            CommandType::Exit(code) => Action::Terminate(*code),
            CommandType::Echo { value } => Action::PrintLine(value.clone()),
            CommandType::Pwd => Action::PrintWorkingDir,
            CommandType::Cd { path } => Action::ChangeDir(expand_tilde(path.as_str(), home)),
            CommandType::Type(inner) => match inner.typ {
                Classification::Builtin => Action::PrintLine(builtin_message(inner.name.as_str())),
                Classification::Unknown => match found {
                    Some(p) => Action::PrintLine(located_message(inner.name.as_str(), p.as_str())),
                    None => Action::PrintLine(not_found_message(inner.name.as_str())),
                },
            },
            CommandType::Other { name, parameters } => match found {
                Some(p) => {
                    let arg = join_from(parameters, 0);
                    proof {
                        assert(parameters.deep_view().subrange(0, parameters@.len() as int)
                            =~= parameters.deep_view());
                    }
                    Action::RunProgram { path: p.clone(), arg }
                },
                None => Action::PrintLine(not_found_message(name.as_str())),
            },
        }
    }
}

/// The line `type` prints for a builtin.
pub fn builtin_message(name: &str) -> (r: String)
    ensures
        r@ == name@ + " is a shell builtin"@,
{
    let mut r = name.to_owned();
    r.append(" is a shell builtin");
    r
}

/// The line `type` prints for a name found on PATH.
pub fn located_message(name: &str, path: &str) -> (r: String)
    ensures
        r@ == name@ + " is "@ + path@,
{
    let mut r = name.to_owned();
    r.append(" is ");
    r.append(path);
    proof {
        assert(r@ =~= name@ + " is "@ + path@);
    }
    r
}

/// The line printed for a name found neither among the builtins nor on
/// PATH.
pub fn not_found_message(name: &str) -> (r: String)
    ensures
        r@ == name@ + ": not found"@,
{
    let mut r = name.to_owned();
    r.append(": not found");
    r
}

/// The diagnostic a failed `cd` prints.
pub fn cd_error_message(path: &str) -> (r: String)
    ensures
        r@ == "cd: "@ + path@ + ": No such file or directory"@,
{
    let mut r = "cd: ".to_owned();
    r.append(path);
    r.append(": No such file or directory");
    proof {
        assert(r@ =~= "cd: "@ + path@ + ": No such file or directory"@);
    }
    r
}

/// For every 32-bit value and every decimal token naming it, resolving
/// `exit` with that token yields the builtin `exit` command carrying
/// exactly that status.
pub proof fn lemma_exit_resolves_to_status(arg: Seq<char>, n: int)
    requires
        spec_parse_i32(arg) == Some(n),
    ensures
        spec_resolve(seq!["exit"@, arg]) matches Some(c) && c.command_type
            == SpecCommandType::Exit(n),
{
    let toks = seq!["exit"@, arg];
    assert(toks.subrange(1, 2) =~= seq![arg]);
    assert(spec_join(seq![arg]) == arg);
}

/// For every 32-bit integer `n`, resolving `exit` with `n` written in
/// decimal yields the builtin `exit` command carrying status `n` —
/// which dispatch then maps to termination with status `n`.
pub proof fn lemma_exit_decimal_status(n: int)
    requires
        -0x8000_0000 <= n <= 0x7fff_ffff,
    ensures
        spec_resolve(seq!["exit"@, dec_repr(n)]) matches Some(c) && c.command_type
            == SpecCommandType::Exit(n),
{
    lemma_dec_repr_parses(n);
    lemma_exit_resolves_to_status(dec_repr(n), n);
}

/// Whatever a token list resolves to is classified a builtin exactly
/// when its name — the first token — is in the fixed builtin set.
pub proof fn lemma_resolved_classification(toks: Seq<Seq<char>>)
    ensures
        spec_resolve(toks) matches Some(c) ==> c.name == toks[0],
        spec_resolve(toks) matches Some(c) ==> (c.typ == Classification::Builtin
            <==> is_builtin_name(c.name)),
{
}

} // verus!
