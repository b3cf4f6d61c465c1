//! The command line of the shell.

use vstd::prelude::*;
use vstd::string::*;

use crate::error::{Error, ErrorView, IoError, IoErrorKind, IoErrorView};
use crate::text::{begins_with, str_eq};

verus! {

/// What the shell can do, one line for each command.
pub const HELP: &'static str = "Available commands:
  cd [path]              change remote directory
  pwd                    print remote working directory
  ls [-l] [path]         list remote directory
  get remote [local]     download file
  put local [remote]     upload file
  mkdir path             create remote directory
  rmdir path             remove remote directory
  rm path                remove remote file
  rename old new         rename remote file
  ln [-s] target link    create hard or symbolic link
  symlink target link    create symbolic link
  chmod mode path        change permissions (octal)
  stat path              show file attributes
  lpwd                   print local working directory
  lcd [path]             change local directory
  lls [path]             list local directory
  help, ?                show this help
  quit, exit, bye        disconnect";

/// The texts of a list of strings.
pub open spec fn texts(v: Seq<String>) -> Seq<Seq<char>> {
    Seq::new(v.len(), |i: int| v[i]@)
}

/// The error of a command with the wrong arguments: how to use it.
pub open spec fn usage_error(msg: Seq<char>) -> ErrorView {
    ErrorView::Io(IoErrorView { kind: IoErrorKind::InvalidInput, message: "usage: "@ + msg })
}

/// The error of a command with the wrong arguments: how to use it.
pub fn usage(msg: &str) -> (e: Error)
    ensures
        e@ == usage_error(msg@),
{
    let mut message = String::from_str("usage: ");
    message.append(msg);
    Error::Io(IoError::new(IoErrorKind::InvalidInput, message))
}

/// Whether there are enough arguments, with an error if there are not.
pub fn need_arg(args: &[String], n: usize, usage_str: &str) -> (r: Result<(), Error>)
    ensures
        match r {
            Ok(()) => args@.len() >= n,
            Err(e) => args@.len() < n && e@ == usage_error(usage_str@),
        },
{
    if args.len() < n {
        Err(usage(usage_str))
    } else {
        Ok(())
    }
}

// The options of a listing.

/// Whether an argument asks for long lines.
pub open spec fn asks_long(arg: Seq<char>) -> bool {
    arg == "-l"@ || arg == "-la"@ || arg == "-al"@
}

/// Whether an argument is an option.
pub open spec fn is_option(arg: Seq<char>) -> bool {
    arg.len() > 0 && arg.first() == '-'
}

/// Whether one of the arguments asks for long lines.
pub open spec fn wants_long(args: Seq<Seq<char>>) -> bool {
    exists|i: int| 0 <= i < args.len() && asks_long(#[trigger] args[i])
}

/// The last argument that is no option.
pub open spec fn last_operand(args: Seq<Seq<char>>) -> Option<Seq<char>>
    decreases args.len(),
{
    if args.len() == 0 {
        None
    } else if is_option(args.last()) {
        last_operand(args.drop_last())
    } else {
        Some(args.last())
    }
}

/// Whether long lines are asked for, and what is to be listed.
pub fn parse_ls_args(args: &[String]) -> (r: (bool, Option<String>))
    ensures
        r.0 == wants_long(texts(args@)),
        match last_operand(texts(args@)) {
            Some(t) => r.1 matches Some(s) && s@ == t,
            None => r.1 is None,
        },
{
    proof {
        reveal_strlit("-l");
        reveal_strlit("-la");
        reveal_strlit("-al");
    }
    let mut long = false;
    let mut target: Option<String> = None;
    let mut i: usize = 0;
    while i < args.len()
        invariant
            i <= args@.len(),
            long == wants_long(texts(args@).take(i as int)),
            match last_operand(texts(args@).take(i as int)) {
                Some(t) => target matches Some(s) && s@ == t,
                None => target is None,
            },
            "-l"@ =~= seq!['-', 'l'],
            "-la"@ =~= seq!['-', 'l', 'a'],
            "-al"@ =~= seq!['-', 'a', 'l'],
        decreases args@.len() - i,
    {
        let arg = args[i].as_str();
        proof {
            let upto = texts(args@).take(i + 1);
            let before = texts(args@).take(i as int);
            assert(upto.drop_last() =~= before);
            assert(upto[i as int] == arg@);
            if wants_long(before) {
                let k = choose|k: int| 0 <= k < before.len() && asks_long(#[trigger] before[k]);
                assert(asks_long(upto[k]));
            }
            if wants_long(upto) {
                let k = choose|k: int| 0 <= k < upto.len() && asks_long(#[trigger] upto[k]);
                assert(k == i || asks_long(before[k]));
            }
        }
        if str_eq(arg, "-l") || str_eq(arg, "-la") || str_eq(arg, "-al") {
            long = true;
        } else if begins_with(arg, '-') {
        } else {
            target = Some(args[i].clone());
        }
        i += 1;
    }
    assert(texts(args@).take(i as int) =~= texts(args@));
    (long, target)
}

// Command lines.

/// What a line asks for.
#[derive(Debug)]
pub enum Command {
    /// Nothing.
    Empty,
    Quit,
    Help,
    Pwd,
    Cd(Option<String>),
    Ls(Vec<String>),
    Mkdir(String),
    Rmdir(String),
    Rm(String),
    /// From, to.
    Rename(String, String),
    /// Target, link.
    Symlink(String, String),
    /// Target, link, whether symbolic.
    Ln(String, String, bool),
    /// Mode, path.
    Chmod(String, String),
    Stat(String),
    /// Remote, local.
    Get(String, Option<String>),
    /// Local, remote.
    Put(String, Option<String>),
    Lpwd,
    Lcd(Option<String>),
    Lls(Option<String>),
    /// A word that is no command.
    Unknown(String),
    /// A line whose quotes do not match, and what is wrong with it.
    Malformed(String),
    /// A command with the wrong arguments.
    Misused(Error),
}

/// The contents of a [`Command`].
pub enum CommandView {
    Empty,
    Quit,
    Help,
    Pwd,
    Cd(Option<Seq<char>>),
    Ls(Seq<Seq<char>>),
    Mkdir(Seq<char>),
    Rmdir(Seq<char>),
    Rm(Seq<char>),
    Rename(Seq<char>, Seq<char>),
    Symlink(Seq<char>, Seq<char>),
    Ln(Seq<char>, Seq<char>, bool),
    Chmod(Seq<char>, Seq<char>),
    Stat(Seq<char>),
    Get(Seq<char>, Option<Seq<char>>),
    Put(Seq<char>, Option<Seq<char>>),
    Lpwd,
    Lcd(Option<Seq<char>>),
    Lls(Option<Seq<char>>),
    Unknown(Seq<char>),
    Malformed(Seq<char>),
    Misused(ErrorView),
}

/// The text of a string, if there is one.
pub open spec fn opt_view(o: Option<String>) -> Option<Seq<char>> {
    match o {
        Some(s) => Some(s@),
        None => None,
    }
}

impl View for Command {
    type V = CommandView;

    open spec fn view(&self) -> CommandView {
        match self {
            Command::Empty => CommandView::Empty,
            Command::Quit => CommandView::Quit,
            Command::Help => CommandView::Help,
            Command::Pwd => CommandView::Pwd,
            Command::Cd(path) => CommandView::Cd(opt_view(*path)),
            Command::Ls(args) => CommandView::Ls(texts(args@)),
            Command::Mkdir(path) => CommandView::Mkdir(path@),
            Command::Rmdir(path) => CommandView::Rmdir(path@),
            Command::Rm(path) => CommandView::Rm(path@),
            Command::Rename(old, new) => CommandView::Rename(old@, new@),
            Command::Symlink(target, link) => CommandView::Symlink(target@, link@),
            Command::Ln(target, link, symbolic) => CommandView::Ln(target@, link@, *symbolic),
            Command::Chmod(mode, path) => CommandView::Chmod(mode@, path@),
            Command::Stat(path) => CommandView::Stat(path@),
            Command::Get(remote, local) => CommandView::Get(remote@, opt_view(*local)),
            Command::Put(local, remote) => CommandView::Put(local@, opt_view(*remote)),
            Command::Lpwd => CommandView::Lpwd,
            Command::Lcd(path) => CommandView::Lcd(opt_view(*path)),
            Command::Lls(path) => CommandView::Lls(opt_view(*path)),
            Command::Unknown(word) => CommandView::Unknown(word@),
            Command::Malformed(text) => CommandView::Malformed(text@),
            Command::Misused(e) => CommandView::Misused(e@),
        }
    }
}

/// The word at a place, if the list is so long.
pub open spec fn word_at(args: Seq<Seq<char>>, i: int) -> Option<Seq<char>> {
    if i < args.len() {
        Some(args[i])
    } else {
        None
    }
}

/// The command of a word that wants one path.
pub open spec fn with_path(
    args: Seq<Seq<char>>,
    usage: Seq<char>,
    make: spec_fn(Seq<char>) -> CommandView,
) -> CommandView {
    if args.len() >= 1 {
        make(args[0])
    } else {
        CommandView::Misused(usage_error(usage))
    }
}

/// The command of a word that wants two words.
pub open spec fn with_two(
    args: Seq<Seq<char>>,
    usage: Seq<char>,
    make: spec_fn(Seq<char>, Seq<char>) -> CommandView,
) -> CommandView {
    if args.len() >= 2 {
        make(args[0], args[1])
    } else {
        CommandView::Misused(usage_error(usage))
    }
}

/// The arguments of a link command without the option that makes it symbolic.
pub open spec fn link_operands(args: Seq<Seq<char>>) -> Seq<Seq<char>> {
    args.filter(|a: Seq<char>| a != "-s"@)
}

/// The command of a link: symbolic if the first argument says so.
pub open spec fn link_command(args: Seq<Seq<char>>) -> CommandView {
    let rest = link_operands(args);
    if rest.len() == 2 {
        CommandView::Ln(rest[0], rest[1], args.len() > 0 && args[0] == "-s"@)
    } else {
        CommandView::Misused(usage_error("ln [-s] target link"@))
    }
}

/// What a word with its arguments asks for.
pub open spec fn command_of(word: Seq<char>, args: Seq<Seq<char>>) -> CommandView {
    if word == "quit"@ || word == "exit"@ || word == "bye"@ {
        CommandView::Quit
    } else if word == "help"@ || word == "?"@ {
        CommandView::Help
    } else if word == "pwd"@ {
        CommandView::Pwd
    } else if word == "cd"@ {
        CommandView::Cd(word_at(args, 0))
    } else if word == "ls"@ || word == "dir"@ {
        CommandView::Ls(args)
    } else if word == "mkdir"@ {
        with_path(args, "mkdir path"@, |p: Seq<char>| CommandView::Mkdir(p))
    } else if word == "rmdir"@ {
        with_path(args, "rmdir path"@, |p: Seq<char>| CommandView::Rmdir(p))
    } else if word == "rm"@ {
        with_path(args, "rm path"@, |p: Seq<char>| CommandView::Rm(p))
    } else if word == "rename"@ {
        with_two(
            args,
            "rename old new"@,
            |a: Seq<char>, b: Seq<char>| CommandView::Rename(a, b),
        )
    } else if word == "symlink"@ {
        with_two(
            args,
            "symlink target link"@,
            |a: Seq<char>, b: Seq<char>| CommandView::Symlink(a, b),
        )
    } else if word == "ln"@ {
        link_command(args)
    } else if word == "chmod"@ {
        with_two(
            args,
            "chmod mode path"@,
            |a: Seq<char>, b: Seq<char>| CommandView::Chmod(a, b),
        )
    } else if word == "stat"@ {
        with_path(args, "stat path"@, |p: Seq<char>| CommandView::Stat(p))
    } else if word == "get"@ {
        with_path(
            args,
            "get remote [local]"@,
            |p: Seq<char>| CommandView::Get(p, word_at(args, 1)),
        )
    } else if word == "put"@ {
        with_path(
            args,
            "put local [remote]"@,
            |p: Seq<char>| CommandView::Put(p, word_at(args, 1)),
        )
    } else if word == "lpwd"@ {
        CommandView::Lpwd
    } else if word == "lcd"@ {
        CommandView::Lcd(word_at(args, 0))
    } else if word == "lls"@ {
        CommandView::Lls(word_at(args, 0))
    } else {
        CommandView::Unknown(word)
    }
}

/// What the words of a line ask for.
pub open spec fn command_line(words: Seq<Seq<char>>) -> CommandView {
    if words.len() == 0 {
        CommandView::Empty
    } else {
        command_of(words[0], words.skip(1))
    }
}

/// Three words, and no others, leave the shell.
pub proof fn law_only_three_words_quit(words: Seq<Seq<char>>)
    ensures
        command_line(words) is Quit <==> words.len() > 0 && (words[0] == "quit"@ || words[0]
            == "exit"@ || words[0] == "bye"@),
{
}

fn arg_at(args: &[String], i: usize) -> (r: Option<String>)
    ensures
        opt_view(r) == word_at(texts(args@), i as int),
{
    if i < args.len() {
        Some(args[i].clone())
    } else {
        None
    }
}

fn interpret_ln(args: &[String]) -> (c: Command)
    ensures
        c@ == link_command(texts(args@)),
{
    let ghost all = texts(args@);
    let ghost keep = |a: Seq<char>| a != "-s"@;
    let symbolic = args.len() > 0 && str_eq(args[0].as_str(), "-s");
    let mut rest: Vec<String> = Vec::new();
    let mut i: usize = 0;
    proof {
        reveal(Seq::filter);
        assert(all.take(0).filter(keep) =~= texts(rest@));
    }
    while i < args.len()
        invariant
            i <= args@.len(),
            all == texts(args@),
            keep == (|a: Seq<char>| a != "-s"@),
            texts(rest@) == all.take(i as int).filter(keep),
        decreases args@.len() - i,
    {
        let ghost before = rest@;
        proof {
            reveal(Seq::filter);
            assert(all.take(i + 1).drop_last() =~= all.take(i as int));
            assert(all.take(i + 1).last() == args@[i as int]@);
        }
        if !str_eq(args[i].as_str(), "-s") {
            rest.push(args[i].clone());
            assert(texts(rest@) =~= texts(before).push(args@[i as int]@));
        }
        i += 1;
    }
    assert(all.take(i as int) =~= all);
    assert(texts(rest@) == link_operands(all));
    if rest.len() != 2 {
        Command::Misused(usage("ln [-s] target link"))
    } else {
        assert(rest@[0]@ == texts(rest@)[0] && rest@[1]@ == texts(rest@)[1]);
        Command::Ln(rest[0].clone(), rest[1].clone(), symbolic)
    }
}

/// What the words of a line ask for.
pub fn interpret(tokens: &[String]) -> (c: Command)
    ensures
        c@ == command_line(texts(tokens@)),
{
    if tokens.len() == 0 {
        return Command::Empty;
    }
    let cmd = tokens[0].as_str();
    let args = vstd::slice::slice_subrange(tokens, 1, tokens.len());
    assert(texts(args@) =~= texts(tokens@).skip(1));
    if str_eq(cmd, "quit") || str_eq(cmd, "exit") || str_eq(cmd, "bye") {
        Command::Quit
    } else if str_eq(cmd, "help") || str_eq(cmd, "?") {
        Command::Help
    } else if str_eq(cmd, "pwd") {
        Command::Pwd
    } else if str_eq(cmd, "cd") {
        Command::Cd(arg_at(args, 0))
    } else if str_eq(cmd, "ls") || str_eq(cmd, "dir") {
        let list = copy_strings(args);
        Command::Ls(list)
    } else if str_eq(cmd, "mkdir") {
        match need_arg(args, 1, "mkdir path") {
            Ok(()) => Command::Mkdir(args[0].clone()),
            Err(e) => Command::Misused(e),
        }
    } else if str_eq(cmd, "rmdir") {
        match need_arg(args, 1, "rmdir path") {
            Ok(()) => Command::Rmdir(args[0].clone()),
            Err(e) => Command::Misused(e),
        }
    } else if str_eq(cmd, "rm") {
        match need_arg(args, 1, "rm path") {
            Ok(()) => Command::Rm(args[0].clone()),
            Err(e) => Command::Misused(e),
        }
    } else if str_eq(cmd, "rename") {
        match need_arg(args, 2, "rename old new") {
            Ok(()) => Command::Rename(args[0].clone(), args[1].clone()),
            Err(e) => Command::Misused(e),
        }
    } else if str_eq(cmd, "symlink") {
        match need_arg(args, 2, "symlink target link") {
            Ok(()) => Command::Symlink(args[0].clone(), args[1].clone()),
            Err(e) => Command::Misused(e),
        }
    } else if str_eq(cmd, "ln") {
        interpret_ln(args)
    } else if str_eq(cmd, "chmod") {
        match need_arg(args, 2, "chmod mode path") {
            Ok(()) => Command::Chmod(args[0].clone(), args[1].clone()),
            Err(e) => Command::Misused(e),
        }
    } else if str_eq(cmd, "stat") {
        match need_arg(args, 1, "stat path") {
            Ok(()) => Command::Stat(args[0].clone()),
            Err(e) => Command::Misused(e),
        }
    } else if str_eq(cmd, "get") {
        match need_arg(args, 1, "get remote [local]") {
            Ok(()) => Command::Get(args[0].clone(), arg_at(args, 1)),
            Err(e) => Command::Misused(e),
        }
    } else if str_eq(cmd, "put") {
        match need_arg(args, 1, "put local [remote]") {
            Ok(()) => Command::Put(args[0].clone(), arg_at(args, 1)),
            Err(e) => Command::Misused(e),
        }
    } else if str_eq(cmd, "lpwd") {
        Command::Lpwd
    } else if str_eq(cmd, "lcd") {
        Command::Lcd(arg_at(args, 0))
    } else if str_eq(cmd, "lls") {
        Command::Lls(arg_at(args, 0))
    } else {
        Command::Unknown(tokens[0].clone())
    }
}

fn copy_strings(v: &[String]) -> (r: Vec<String>)
    ensures
        texts(r@) == texts(v@),
{
    let mut r: Vec<String> = Vec::new();
    let mut i: usize = 0;
    while i < v.len()
        invariant
            i <= v@.len(),
            texts(r@) == texts(v@).take(i as int),
        decreases v@.len() - i,
    {
        let ghost before = r@;
        r.push(v[i].clone());
        i += 1;
        assert(texts(r@) =~= texts(before).push(v@[i - 1]@));
        assert(texts(r@) =~= texts(v@).take(i as int));
    }
    assert(texts(v@).take(i as int) =~= texts(v@));
    r
}

/// How `shell_words::split` parts a line into words; `None` for a line that it
/// refuses.
pub uninterp spec fn shell_split(line: Seq<char>) -> Option<Seq<Seq<char>>>;

/// `shell_words::split`: the words of a line, with quotes and escapes taken
/// away as a Unix shell does. The words are named, not described. A line is
/// refused, with one and the same description, if a quote in it is not closed.
#[verifier::external_body]
fn split_words(line: &str) -> (r: Result<Vec<String>, String>)
    ensures
        match shell_split(line@) {
            Some(words) => r matches Ok(v) && texts(v@) == words,
            None => r matches Err(text) && text@ == "missing closing quote"@,
        },
{
    match shell_words::split(line) {
        Ok(words) => Ok(words),
        Err(e) => Err(e.to_string()),
    }
}

/// What a line asks for.
pub open spec fn line_command(line: Seq<char>) -> CommandView {
    match shell_split(line) {
        Some(words) => command_line(words),
        None => CommandView::Malformed("missing closing quote"@),
    }
}

/// Reads a line.
pub fn parse_line(line: &str) -> (c: Command)
    ensures
        c@ == line_command(line@),
{
    match split_words(line) {
        Ok(tokens) => interpret(tokens.as_slice()),
        Err(text) => Command::Malformed(text),
    }
}

} // verus!
