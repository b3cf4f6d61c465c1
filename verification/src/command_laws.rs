//! What the words of a line mean.

use vstd::prelude::*;

use crate::command::{
    asks_long, command_line, command_of, last_operand, line_command, link_command, shell_split,
    wants_long, CommandView,
};
use crate::error::{ErrorView, IoErrorKind, IoErrorView};

verus! {

/// A command that was given the wrong arguments, and how it is used.
pub open spec fn misused(how: Seq<char>) -> CommandView {
    CommandView::Misused(
        ErrorView::Io(IoErrorView { kind: IoErrorKind::InvalidInput, message: "usage: "@ + how }),
    )
}

/// The first word of a line is the command, the others are its arguments; a
/// line without words asks for nothing, and one whose quotes do not match is
/// refused.
pub proof fn law_first_word_is_the_command(word: Seq<char>, args: Seq<Seq<char>>, line: Seq<char>)
    ensures
        command_line(seq![word] + args) == command_of(word, args),
        command_line(seq![]) == CommandView::Empty,
        shell_split(line) == Some(seq![word] + args) ==> line_command(line) == command_of(
            word,
            args,
        ),
        shell_split(line) == Some(Seq::<Seq<char>>::empty()) ==> line_command(line)
            == CommandView::Empty,
        shell_split(line) is None ==> line_command(line) == CommandView::Malformed(
            "missing closing quote"@,
        ),
{
    assert((seq![word] + args).skip(1) =~= args);
}

/// The words that are commands.
pub open spec fn is_command_word(word: Seq<char>) -> bool {
    ||| word == "quit"@
    ||| word == "exit"@
    ||| word == "bye"@
    ||| word == "help"@
    ||| word == "?"@
    ||| word == "pwd"@
    ||| word == "cd"@
    ||| word == "ls"@
    ||| word == "dir"@
    ||| word == "mkdir"@
    ||| word == "rmdir"@
    ||| word == "rm"@
    ||| word == "rename"@
    ||| word == "symlink"@
    ||| word == "ln"@
    ||| word == "chmod"@
    ||| word == "stat"@
    ||| word == "get"@
    ||| word == "put"@
    ||| word == "lpwd"@
    ||| word == "lcd"@
    ||| word == "lls"@
}

/// What tells the command words apart: how long they are, how they begin and how
/// they end.
spec fn mark(word: Seq<char>) -> (nat, char, char) {
    (word.len(), word.first(), word.last())
}

proof fn lemma_words_differ()
    ensures
        mark("quit"@) == (4nat, 'q', 't'),
        mark("exit"@) == (4nat, 'e', 't'),
        mark("bye"@) == (3nat, 'b', 'e'),
        mark("help"@) == (4nat, 'h', 'p'),
        mark("?"@) == (1nat, '?', '?'),
        mark("pwd"@) == (3nat, 'p', 'd'),
        mark("cd"@) == (2nat, 'c', 'd'),
        mark("ls"@) == (2nat, 'l', 's'),
        mark("dir"@) == (3nat, 'd', 'r'),
        mark("mkdir"@) == (5nat, 'm', 'r'),
        mark("rmdir"@) == (5nat, 'r', 'r'),
        mark("rm"@) == (2nat, 'r', 'm'),
        mark("rename"@) == (6nat, 'r', 'e'),
        mark("symlink"@) == (7nat, 's', 'k'),
        mark("ln"@) == (2nat, 'l', 'n'),
        mark("chmod"@) == (5nat, 'c', 'd'),
        mark("stat"@) == (4nat, 's', 't'),
        mark("get"@) == (3nat, 'g', 't'),
        mark("put"@) == (3nat, 'p', 't'),
        mark("lpwd"@) == (4nat, 'l', 'd'),
        mark("lcd"@) == (3nat, 'l', 'd'),
        mark("lls"@) == (3nat, 'l', 's'),
{
    reveal_strlit("quit");
    assert(mark("quit"@) == (4nat, 'q', 't'));
    reveal_strlit("exit");
    assert(mark("exit"@) == (4nat, 'e', 't'));
    reveal_strlit("bye");
    assert(mark("bye"@) == (3nat, 'b', 'e'));
    reveal_strlit("help");
    assert(mark("help"@) == (4nat, 'h', 'p'));
    reveal_strlit("?");
    assert(mark("?"@) == (1nat, '?', '?'));
    reveal_strlit("pwd");
    assert(mark("pwd"@) == (3nat, 'p', 'd'));
    reveal_strlit("cd");
    assert(mark("cd"@) == (2nat, 'c', 'd'));
    reveal_strlit("ls");
    assert(mark("ls"@) == (2nat, 'l', 's'));
    reveal_strlit("dir");
    assert(mark("dir"@) == (3nat, 'd', 'r'));
    reveal_strlit("mkdir");
    assert(mark("mkdir"@) == (5nat, 'm', 'r'));
    reveal_strlit("rmdir");
    assert(mark("rmdir"@) == (5nat, 'r', 'r'));
    reveal_strlit("rm");
    assert(mark("rm"@) == (2nat, 'r', 'm'));
    reveal_strlit("rename");
    assert(mark("rename"@) == (6nat, 'r', 'e'));
    reveal_strlit("symlink");
    assert(mark("symlink"@) == (7nat, 's', 'k'));
    reveal_strlit("ln");
    assert(mark("ln"@) == (2nat, 'l', 'n'));
    reveal_strlit("chmod");
    assert(mark("chmod"@) == (5nat, 'c', 'd'));
    reveal_strlit("stat");
    assert(mark("stat"@) == (4nat, 's', 't'));
    reveal_strlit("get");
    assert(mark("get"@) == (3nat, 'g', 't'));
    reveal_strlit("put");
    assert(mark("put"@) == (3nat, 'p', 't'));
    reveal_strlit("lpwd");
    assert(mark("lpwd"@) == (4nat, 'l', 'd'));
    reveal_strlit("lcd");
    assert(mark("lcd"@) == (3nat, 'l', 'd'));
    reveal_strlit("lls");
    assert(mark("lls"@) == (3nat, 'l', 's'));
}

/// A word that is no command is told back.
pub proof fn law_other_words_are_unknown(word: Seq<char>, args: Seq<Seq<char>>)
    requires
        !is_command_word(word),
    ensures
        command_of(word, args) == CommandView::Unknown(word),
{
}

/// `quit`, `exit` and `bye` leave the shell, whatever follows.
pub proof fn law_words_that_end_the_shell(args: Seq<Seq<char>>)
    ensures
        command_of("quit"@, args) == CommandView::Quit,
        command_of("exit"@, args) == CommandView::Quit,
        command_of("bye"@, args) == CommandView::Quit,
{
    lemma_words_differ();
}

/// `help` and `?` ask for help.
pub proof fn law_words_that_ask_for_help(args: Seq<Seq<char>>)
    ensures
        command_of("help"@, args) == CommandView::Help,
        command_of("?"@, args) == CommandView::Help,
{
    lemma_words_differ();
}

/// `pwd` asks where the shell is; `cd` goes to the first path it is given, or to
/// the root.
pub proof fn law_words_about_directories(args: Seq<Seq<char>>)
    ensures
        command_of("pwd"@, args) == CommandView::Pwd,
        args.len() == 0 ==> command_of("cd"@, args) == CommandView::Cd(None),
        args.len() > 0 ==> command_of("cd"@, args) == CommandView::Cd(Some(args[0])),
{
    lemma_words_differ();
}

/// `ls` and `dir` list what their arguments say.
pub proof fn law_words_that_list(args: Seq<Seq<char>>)
    ensures
        command_of("ls"@, args) == CommandView::Ls(args),
        command_of("dir"@, args) == CommandView::Ls(args),
{
    lemma_words_differ();
}

/// `mkdir` wants one path; without one it says how it is used.
pub proof fn law_word_mkdir(args: Seq<Seq<char>>)
    ensures
        args.len() > 0 ==> command_of("mkdir"@, args) == CommandView::Mkdir(args[0]),
        args.len() == 0 ==> command_of("mkdir"@, args) == misused("mkdir path"@),
{
    lemma_words_differ();
}

/// `rmdir` wants one path; without one it says how it is used.
pub proof fn law_word_rmdir(args: Seq<Seq<char>>)
    ensures
        args.len() > 0 ==> command_of("rmdir"@, args) == CommandView::Rmdir(args[0]),
        args.len() == 0 ==> command_of("rmdir"@, args) == misused("rmdir path"@),
{
    lemma_words_differ();
}

/// `rm` wants one path; without one it says how it is used.
pub proof fn law_word_rm(args: Seq<Seq<char>>)
    ensures
        args.len() > 0 ==> command_of("rm"@, args) == CommandView::Rm(args[0]),
        args.len() == 0 ==> command_of("rm"@, args) == misused("rm path"@),
{
    lemma_words_differ();
}

/// `stat` wants one path; without one it says how it is used.
pub proof fn law_word_stat(args: Seq<Seq<char>>)
    ensures
        args.len() > 0 ==> command_of("stat"@, args) == CommandView::Stat(args[0]),
        args.len() == 0 ==> command_of("stat"@, args) == misused("stat path"@),
{
    lemma_words_differ();
}

/// `rename` wants the path as it is and the path as it is to be.
pub proof fn law_word_rename(args: Seq<Seq<char>>)
    ensures
        args.len() >= 2 ==> command_of("rename"@, args) == CommandView::Rename(args[0], args[1]),
        args.len() < 2 ==> command_of("rename"@, args) == misused("rename old new"@),
{
    lemma_words_differ();
}

/// `symlink` wants what the link leads to, and the link.
pub proof fn law_word_symlink(args: Seq<Seq<char>>)
    ensures
        args.len() >= 2 ==> command_of("symlink"@, args) == CommandView::Symlink(args[0], args[1]),
        args.len() < 2 ==> command_of("symlink"@, args) == misused("symlink target link"@),
{
    lemma_words_differ();
}

/// `chmod` wants the mode and the path.
pub proof fn law_word_chmod(args: Seq<Seq<char>>)
    ensures
        args.len() >= 2 ==> command_of("chmod"@, args) == CommandView::Chmod(args[0], args[1]),
        args.len() < 2 ==> command_of("chmod"@, args) == misused("chmod mode path"@),
{
    lemma_words_differ();
}

/// `get` wants the remote path, and takes a local one.
pub proof fn law_word_get(args: Seq<Seq<char>>)
    ensures
        args.len() == 1 ==> command_of("get"@, args) == CommandView::Get(args[0], None),
        args.len() >= 2 ==> command_of("get"@, args) == CommandView::Get(args[0], Some(args[1])),
        args.len() == 0 ==> command_of("get"@, args) == misused("get remote [local]"@),
{
    lemma_words_differ();
}

/// `put` wants the local path, and takes a remote one.
pub proof fn law_word_put(args: Seq<Seq<char>>)
    ensures
        args.len() == 1 ==> command_of("put"@, args) == CommandView::Put(args[0], None),
        args.len() >= 2 ==> command_of("put"@, args) == CommandView::Put(args[0], Some(args[1])),
        args.len() == 0 ==> command_of("put"@, args) == misused("put local [remote]"@),
{
    lemma_words_differ();
}

/// `lpwd`, `lcd` and `lls` are about local files; the last two take a path.
pub proof fn law_words_about_local_files(args: Seq<Seq<char>>)
    ensures
        command_of("lpwd"@, args) == CommandView::Lpwd,
        args.len() == 0 ==> command_of("lcd"@, args) == CommandView::Lcd(None),
        args.len() > 0 ==> command_of("lcd"@, args) == CommandView::Lcd(Some(args[0])),
        args.len() == 0 ==> command_of("lls"@, args) == CommandView::Lls(None),
        args.len() > 0 ==> command_of("lls"@, args) == CommandView::Lls(Some(args[0])),
{
    lemma_words_differ();
}

// Links.

/// `ln` wants what the link leads to, and the link; the link is symbolic if
/// `-s` comes first.
pub proof fn law_word_ln(target: Seq<char>, link: Seq<char>)
    requires
        target != "-s"@,
        link != "-s"@,
    ensures
        command_of("ln"@, seq![target, link]) == CommandView::Ln(target, link, false),
        command_of("ln"@, seq!["-s"@, target, link]) == CommandView::Ln(target, link, true),
        command_of("ln"@, seq![target]) == misused("ln [-s] target link"@),
        command_of("ln"@, seq![]) == misused("ln [-s] target link"@),
{
    lemma_words_differ();
    let keep = |a: Seq<char>| a != "-s"@;
    reveal(Seq::filter);
    let none = Seq::<Seq<char>>::empty();
    assert(none.filter(keep) =~= none);
    let one = seq![target];
    assert(one.drop_last() =~= none);
    assert(one.filter(keep) =~= seq![target]);
    let both = seq![target, link];
    assert(both.drop_last() =~= one);
    assert(both.filter(keep) =~= seq![target, link]);
    let s = seq!["-s"@];
    assert(s.drop_last() =~= none);
    assert(s.filter(keep) =~= none);
    let s1 = seq!["-s"@, target];
    assert(s1.drop_last() =~= s);
    assert(s1.filter(keep) =~= seq![target]);
    let s2 = seq!["-s"@, target, link];
    assert(s2.drop_last() =~= s1);
    assert(s2.filter(keep) =~= seq![target, link]);
}

/// `ln` looks at `-s` wherever it stands, but only in the first place does it
/// make the link symbolic; it wants two other arguments, neither more nor less.
pub proof fn law_arguments_of_ln(args: Seq<Seq<char>>)
    ensures
        ({
            let rest = args.filter(|a: Seq<char>| a != "-s"@);
            link_command(args) == (if rest.len() == 2 {
                CommandView::Ln(rest[0], rest[1], args.len() > 0 && args[0] == "-s"@)
            } else {
                misused("ln [-s] target link"@)
            })
        }),
        command_of("ln"@, args) == link_command(args),
{
    lemma_words_differ();
}

// Listings.

/// Every argument of `ls` is read in its turn: `-l`, `-la` and `-al` ask for
/// long lines, anything else that begins with a minus is passed over, and the
/// last other one is what is listed.
pub proof fn law_arguments_of_ls(args: Seq<Seq<char>>, arg: Seq<char>)
    ensures
        !wants_long(seq![]),
        wants_long(args.push(arg)) == (wants_long(args) || arg == "-l"@ || arg == "-la"@ || arg
            == "-al"@),
        last_operand(seq![]) is None,
        last_operand(args.push(arg)) == (if arg.len() > 0 && arg[0] == '-' {
            last_operand(args)
        } else {
            Some(arg)
        }),
{
    let all = args.push(arg);
    assert(all.drop_last() =~= args);
    if wants_long(args) {
        let k = choose|k: int| 0 <= k < args.len() && asks_long(#[trigger] args[k]);
        assert(asks_long(all[k]));
    }
    if asks_long(arg) {
        assert(asks_long(all[args.len() as int]));
    }
    if wants_long(all) {
        let k = choose|k: int| 0 <= k < all.len() && asks_long(#[trigger] all[k]);
        if k < args.len() {
            assert(asks_long(args[k]));
        }
    }
}

} // verus!
