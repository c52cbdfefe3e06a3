//! Reading the bot's chat commands: `/start`, `/status`, `/pr <number> <packages>`, and links to
//! nixpkgs pull requests, which stand for `/pr`.
use vstd::prelude::*;

use crate::text::{
    ascii_lowercase, chars_eq, chars_of, is_digit, lemma_pat_pos_first, occurs_at, parse_u32,
    parse_u32_chars, push_all, push_str, split_char, split_char_vec, split_once, split_once_str,
    split_whitespace_vec, strings_of_all, string_views, strip_prefix, strip_prefix_str,
    to_ascii_lowercase, views, words,
};

verus! {

/// The link prefix of a nixpkgs pull request.
pub open spec fn pr_url_prefix() -> Seq<char> {
    "https://github.com/NixOS/nixpkgs/pull/"@
}

/// A chat command, as the bot acts on it.
#[derive(Debug, PartialEq, Eq)]
pub enum Command {
    /// `/start`: the bot introduces itself.
    Start,
    /// `/pr <num> <packages>`: build pull request `num`, also building `pkgs`.
    Pr { num: u32, pkgs: Vec<String> },
    /// `/full <num> <packages>`: build every package whose outputs pull request `num` changes
    /// (as nixpkgs-review does), also building `pkgs`.
    Full { num: u32, pkgs: Vec<String> },
    /// `/pr` or `/full` whose number is missing, zero or unreadable: nothing happens.
    Ignored,
    /// `/status`: the bot lists the builds in progress.
    Status,
    /// Anything else: the bot answers that it does not know the command.
    Unknown,
}

/// A command over mathematical values.
pub enum CommandSpec {
    Start,
    Pr(u32, Seq<Seq<char>>),
    Full(u32, Seq<Seq<char>>),
    Ignored,
    Status,
    Unknown,
}

impl Command {
    /// The command over mathematical values.
    pub open spec fn spec(&self) -> CommandSpec {
        match self {
            Command::Start => CommandSpec::Start,
            Command::Pr { num, pkgs } => CommandSpec::Pr(*num, string_views(pkgs@)),
            Command::Full { num, pkgs } => CommandSpec::Full(*num, string_views(pkgs@)),
            Command::Ignored => CommandSpec::Ignored,
            Command::Status => CommandSpec::Status,
            Command::Unknown => CommandSpec::Unknown,
        }
    }
}

/// The lines of a chat message (`str::split('\n')`; each is a command of its own).
pub open spec fn message_lines(text: Seq<char>) -> Seq<Seq<char>> {
    split_char(text, '\n')
}

/// Splits a chat message into its lines.
pub fn message_lines_of(text: &str) -> (r: Vec<String>)
    ensures
        string_views(r@) == message_lines(text@),
{
    let t = chars_of(text);
    let parts = split_char_vec(&t, '\n');
    strings_of_all(parts)
}

/// The command word and the arguments of a line: split at the first space, or the whole line
/// and no arguments.
pub open spec fn line_parts(line: Seq<char>) -> (Seq<char>, Seq<char>) {
    match split_once(line, " "@) {
        Some((command, args)) => (command, args),
        None => (line, Seq::empty()),
    }
}

/// The leading run of ASCII digits of `s`.
pub open spec fn leading_digits(s: Seq<char>) -> Seq<char>
    decreases s.len(),
{
    if s.len() == 0 || !is_digit(s[0]) {
        Seq::empty()
    } else {
        seq![s[0]] + leading_digits(s.drop_first())
    }
}

/// The command word and arguments after a pull request link has been read as
/// `/pr <number> <args>`, the number being the digits that follow the link prefix.
pub open spec fn normalized_parts(line: Seq<char>) -> (Seq<char>, Seq<char>) {
    let (command, args) = line_parts(line);
    match strip_prefix(command, pr_url_prefix()) {
        Some(rest) => ("/pr"@, leading_digits(rest) + " "@ + args),
        None => (command, args),
    }
}

/// The pull request number and packages of the arguments of `/pr` and `/full`: with a space, the number
/// before the first space (0 where it does not parse) and the white-space separated words after
/// it; without one, all of it as the number and no packages.
pub open spec fn pr_arguments(args: Seq<char>) -> (u32, Seq<Seq<char>>) {
    match split_once(args, " "@) {
        Some((num, rest)) => (
            match parse_u32(num) {
                Some(n) => n,
                None => 0,
            },
            words(rest),
        ),
        None => (
            match parse_u32(args) {
                Some(n) => n,
                None => 0,
            },
            Seq::empty(),
        ),
    }
}

/// The command a line stands for. The command word is compared without regard to ASCII case.
pub open spec fn command_of(line: Seq<char>) -> CommandSpec {
    let (command, args) = normalized_parts(line);
    let c = ascii_lowercase(command);
    if c == "/start"@ {
        CommandSpec::Start
    } else if c == "/pr"@ {
        let (num, pkgs) = pr_arguments(args);
        if num == 0 {
            CommandSpec::Ignored
        } else {
            CommandSpec::Pr(num, pkgs)
        }
    } else if c == "/full"@ {
        let (num, pkgs) = pr_arguments(args);
        if num == 0 {
            CommandSpec::Ignored
        } else {
            CommandSpec::Full(num, pkgs)
        }
    } else if c == "/status"@ {
        CommandSpec::Status
    } else {
        CommandSpec::Unknown
    }
}

/// The leading ASCII digits of `s`.
fn leading_digits_exec(s: &Vec<char>) -> (r: Vec<char>)
    ensures
        r@ == leading_digits(s@),
{
    let mut r: Vec<char> = Vec::new();
    let mut i: usize = 0;
    assert(s@.skip(0) =~= s@);
    while i < s.len() && s[i] >= '0' && s[i] <= '9'
        invariant
            i <= s@.len(),
            r@ == s@.take(i as int),
            leading_digits(s@) == r@ + leading_digits(s@.skip(i as int)),
        decreases s@.len() - i,
    {
        let ghost t = s@.skip(i as int);
        assert(t.drop_first() =~= s@.skip(i + 1));
        assert(t[0] == s@[i as int]);
        let ghost r0 = r@;
        r.push(s[i]);
        assert(r@ =~= s@.take(i + 1));
        assert(r0 + (seq![t[0]] + leading_digits(t.drop_first())) =~= r@ + leading_digits(
            s@.skip(i + 1),
        ));
        i += 1;
    }
    if i < s.len() {
        assert(!is_digit(s@.skip(i as int)[0]));
    } else {
        assert(s@.skip(i as int).len() == 0);
    }
    assert(r@ + leading_digits(s@.skip(i as int)) =~= r@);
    r
}

/// Reads the arguments of `/pr` and `/full`.
fn pr_arguments_of(args: &Vec<char>) -> (r: (u32, Vec<Vec<char>>))
    ensures
        (r.0, views(r.1@)) == pr_arguments(args@),
{
    let (num, pkgs) = match split_once_str(args, " ") {
        Some((n, rest)) => {
            let num = match parse_u32_chars(&n) {
                Some(v) => v,
                None => 0,
            };
            (num, split_whitespace_vec(&rest))
        },
        None => {
            let num = match parse_u32_chars(args) {
                Some(v) => v,
                None => 0,
            };
            (num, Vec::new())
        },
    };
    assert((num, views(pkgs@)) == pr_arguments(args@)) by {
        if split_once(args@, " "@) is None {
            assert(views(pkgs@) =~= Seq::<Seq<char>>::empty());
        }
    }
    (num, pkgs)
}

/// Reads one line of a chat message as a command.
pub fn parse_command(line: &str) -> (c: Command)
    ensures
        c.spec() == command_of(line@),
{
    let l = chars_of(line);
    let (command, args) = match split_once_str(&l, " ") {
        Some((c, a)) => (c, a),
        None => (l, Vec::new()),
    };
    assert((command@, args@) == line_parts(line@)) by {
        if split_once(line@, " "@) is None {
            assert(args@ =~= Seq::<char>::empty());
        }
    }
    let (command, args) = match strip_prefix_str(&command, "https://github.com/NixOS/nixpkgs/pull/")
    {
        Some(rest) => {
            let digits = leading_digits_exec(&rest);
            let mut a = digits;
            push_str(&mut a, " ");
            push_all(&mut a, &args);
            (chars_of("/pr"), a)
        },
        None => (command, args),
    };
    assert((command@, args@) == normalized_parts(line@));
    let lower = to_ascii_lowercase(&command);
    if chars_eq(&lower, &chars_of("/start")) {
        Command::Start
    } else if chars_eq(&lower, &chars_of("/pr")) || chars_eq(&lower, &chars_of("/full")) {
        let full = chars_eq(&lower, &chars_of("/full"));
        proof {
            reveal_strlit("/pr");
            reveal_strlit("/full");
            assert("/pr"@ != "/full"@) by {
                assert("/pr"@.len() != "/full"@.len());
            }
        }
        let (num, pkgs) = pr_arguments_of(&args);
        if num == 0 {
            Command::Ignored
        } else if full {
            Command::Full { num, pkgs: strings_of_all(pkgs) }
        } else {
            Command::Pr { num, pkgs: strings_of_all(pkgs) }
        }
    } else if chars_eq(&lower, &chars_of("/status")) {
        Command::Status
    } else {
        Command::Unknown
    }
}

/// The commands of a chat message: one per line, in order.
pub open spec fn message_commands(text: Seq<char>) -> Seq<CommandSpec> {
    message_lines(text).map_values(|l: Seq<char>| command_of(l))
}

/// The commands of a chat message, one per line in the order of the lines; the bot handles them
/// one after another as if each line had come as a message of its own.
pub fn parse_message(text: &str) -> (r: Vec<Command>)
    ensures
        r@.map_values(|c: Command| c.spec()) == message_commands(text@),
{
    let lines = message_lines_of(text);
    let ghost ls = string_views(lines@);
    let mut r: Vec<Command> = Vec::new();
    let mut i: usize = 0;
    while i < lines.len()
        invariant
            ls == string_views(lines@),
            ls == message_lines(text@),
            i <= lines@.len(),
            r@.len() == i,
            forall|k: int| 0 <= k < i ==> #[trigger] r@[k].spec() == command_of(ls[k]),
        decreases lines@.len() - i,
    {
        let c = parse_command(lines[i].as_str());
        r.push(c);
        i += 1;
    }
    assert(r@.map_values(|c: Command| c.spec()) =~= message_commands(text@));
    r
}

// ---------------------------------------------------------------------------------------------
// Laws
// ---------------------------------------------------------------------------------------------

/// Splitting at a single character that the first part does not hold gives that part and the
/// rest.
proof fn lemma_split_once_char(a: Seq<char>, c: char, b: Seq<char>)
    requires
        forall|i: int| 0 <= i < a.len() ==> a[i] != c,
    ensures
        split_once(a + seq![c] + b, seq![c]) == Some((a, b)),
{
    let s = a + seq![c] + b;
    let p = seq![c];
    assert(s.subrange(a.len() as int, a.len() + 1 as int) =~= p);
    assert(occurs_at(s, p, a.len() as int));
    assert forall|j: int| 0 <= j < a.len() implies !occurs_at(s, p, j) by {
        assert(s.subrange(j, j + 1)[0] == a[j]);
    }
    lemma_pat_pos_first(s, p, a.len() as int);
    assert(s.take(a.len() as int) =~= a);
    assert(s.skip(a.len() + 1 as int) =~= b);
}

/// A nixpkgs pull request link is read as `/pr` with the number in the link: the line
/// `<link prefix><r> <rest>` means what `/pr <digits of r> <rest>` means, for any `r` without
/// spaces.
pub proof fn law_link_is_pr_command(r: Seq<char>, rest: Seq<char>)
    requires
        forall|i: int| 0 <= i < r.len() ==> r[i] != ' ',
    ensures
        command_of(pr_url_prefix() + r + " "@ + rest) == command_of(
            "/pr "@ + leading_digits(r) + " "@ + rest,
        ),
{
    reveal_strlit("https://github.com/NixOS/nixpkgs/pull/");
    reveal_strlit(" ");
    reveal_strlit("/pr");
    reveal_strlit("/pr ");
    let pre = pr_url_prefix();
    let link = pre + r;
    assert forall|i: int| 0 <= i < link.len() implies link[i] != ' ' by {
        if i >= pre.len() {
            assert(link[i] == r[i - pre.len()]);
        }
    }
    lemma_split_once_char(link, ' ', rest);
    assert(" "@ =~= seq![' ']);
    assert(link + " "@ + rest =~= pre + r + " "@ + rest);
    assert(line_parts(pre + r + " "@ + rest) == (link, rest));
    assert(strip_prefix(link, pre) == Some(r)) by {
        assert(link.subrange(0, pre.len() as int) =~= pre);
        assert(link.skip(pre.len() as int) =~= r);
    }
    let d = leading_digits(r);
    let pr = "/pr"@;
    assert(pr =~= seq!['/', 'p', 'r']);
    lemma_split_once_char(pr, ' ', d + " "@ + rest);
    assert("/pr "@ + d + " "@ + rest =~= pr + seq![' '] + (d + " "@ + rest));
    assert(line_parts("/pr "@ + d + " "@ + rest) == (pr, d + " "@ + rest));
    assert(strip_prefix(pr, pre) is None);
}

} // verus!
