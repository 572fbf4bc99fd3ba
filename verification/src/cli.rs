//! Reading the command line: each argument is a flag (`-v`), an option
//! (`--out-dir=data`) or a plain argument, and the arguments of one invocation
//! add up to a [`Cli`].

use crate::text::{chars_of, split_once, split_once_spec, str_eq};
use vstd::prelude::*;
use vstd::string::StringExecFns;

verus! {

/// A command line that cannot be read, with the sentence that says why.
#[derive(Debug)]
pub enum CliError {
    BadInput(String),
}

/// One argument of the command line, read.
#[derive(Debug)]
pub enum ParsedArg {
    /// `-k`: a single-letter switch.
    Flag(String),
    /// `--key=value`, or `--key` with an empty value.
    Option(String, String),
    /// Anything that does not begin with `-`.
    Argument(String),
}

/// The arguments of one invocation: the plain arguments in their order, the
/// flags that were given, and the value of each option that was given. Of an
/// option that was given more than once, the last value counts.
#[derive(Debug)]
pub struct Cli {
    pub commands: Vec<String>,
    pub flags: Vec<String>,
    pub options: Vec<(String, String)>,
}

/// The mathematical value of a [`ParsedArg`].
pub enum ArgView {
    Flag(Seq<char>),
    Option(Seq<char>, Seq<char>),
    Argument(Seq<char>),
}

/// The mathematical value of a [`Cli`].
pub struct CliView {
    pub commands: Seq<Seq<char>>,
    pub flags: Set<Seq<char>>,
    pub options: Map<Seq<char>, Seq<char>>,
}

impl View for CliError {
    type V = Seq<char>;

    open spec fn view(&self) -> Seq<char> {
        match self {
            CliError::BadInput(text) => text@,
        }
    }
}

impl View for ParsedArg {
    type V = ArgView;

    open spec fn view(&self) -> ArgView {
        match self {
            ParsedArg::Flag(key) => ArgView::Flag(key@),
            ParsedArg::Option(key, value) => ArgView::Option(key@, value@),
            ParsedArg::Argument(text) => ArgView::Argument(text@),
        }
    }
}

/// The characters of each string of `v`.
pub open spec fn strings_view(v: Seq<String>) -> Seq<Seq<char>> {
    Seq::new(v.len(), |i: int| v[i]@)
}

/// The set of the strings of `v`.
pub open spec fn flags_view(v: Seq<String>) -> Set<Seq<char>> {
    Set::new(|f: Seq<char>| exists|i: int| 0 <= i < v.len() && #[trigger] v[i]@ == f)
}

/// The map that the entries of `v` add up to when they are entered one after
/// the other, a later entry replacing an earlier one with the same key.
pub open spec fn options_view(v: Seq<(String, String)>) -> Map<Seq<char>, Seq<char>>
    decreases v.len(),
{
    if v.len() == 0 {
        Map::empty()
    } else {
        options_view(v.drop_last()).insert(v.last().0@, v.last().1@)
    }
}

impl View for Cli {
    type V = CliView;

    open spec fn view(&self) -> CliView {
        CliView {
            commands: strings_view(self.commands@),
            flags: flags_view(self.flags@),
            options: options_view(self.options@),
        }
    }
}

/// The sentence that refuses the argument `s`.
pub open spec fn invalid_option(s: Seq<char>) -> Seq<char> {
    "Invalid option format: "@ + s
}

/// What the argument `s` is. Two leading dashes make an option, whose key ends
/// at the first `=`. One leading dash makes a flag, which must be that dash and
/// one character of the ASCII range. Everything else is a plain argument.
pub open spec fn parse_arg(s: Seq<char>) -> Result<ArgView, Seq<char>> {
    if s.len() >= 2 && s[0] == '-' && s[1] == '-' {
        match split_once_spec(s.skip(2), '=') {
            Some((key, value)) => Ok(ArgView::Option(key, value)),
            None => Ok(ArgView::Option(s.skip(2), Seq::<char>::empty())),
        }
    } else if s.len() >= 1 && s[0] == '-' {
        if s.len() == 2 && (s[1] as u32) < 0x80 {
            Ok(ArgView::Flag(seq![s[1]]))
        } else {
            Err(invalid_option(s))
        }
    } else {
        Ok(ArgView::Argument(s))
    }
}

/// The command line `cli` with the argument `arg` added.
pub open spec fn add_arg(cli: CliView, arg: ArgView) -> CliView {
    match arg {
        ArgView::Flag(key) => CliView { flags: cli.flags.insert(key), ..cli },
        ArgView::Option(key, value) => CliView { options: cli.options.insert(key, value), ..cli },
        ArgView::Argument(text) => CliView { commands: cli.commands.push(text), ..cli },
    }
}

/// The command line without arguments.
pub open spec fn empty_cli() -> CliView {
    CliView { commands: Seq::empty(), flags: Set::empty(), options: Map::empty() }
}

/// What the arguments `args` add up to, read from first to last. The first
/// argument that cannot be read refuses the whole line.
pub open spec fn parse_args(args: Seq<Seq<char>>) -> Result<CliView, Seq<char>>
    decreases args.len(),
{
    if args.len() == 0 {
        Ok(empty_cli())
    } else {
        match parse_args(args.drop_last()) {
            Err(e) => Err(e),
            Ok(cli) => match parse_arg(args.last()) {
                Err(e) => Err(e),
                Ok(arg) => Ok(add_arg(cli, arg)),
            },
        }
    }
}

/// What follows the name of the program among the arguments of a process.
pub open spec fn without_program(args: Seq<Seq<char>>) -> Seq<Seq<char>> {
    if args.len() == 0 {
        args
    } else {
        args.skip(1)
    }
}

/// The entries of `v` hold the key `key` in none of the positions from `from` on.
pub open spec fn absent_from(v: Seq<(String, String)>, key: Seq<char>, from: int) -> bool {
    forall|j: int| from <= j < v.len() ==> (#[trigger] v[j]).0@ != key
}

/// A key that no entry holds is not in the map.
pub proof fn lemma_options_absent(v: Seq<(String, String)>, key: Seq<char>)
    requires
        absent_from(v, key, 0),
    ensures
        !options_view(v).contains_key(key),
    decreases v.len(),
{
    if v.len() > 0 {
        let init = v.drop_last();
        assert forall|j: int| 0 <= j < init.len() implies (#[trigger] init[j]).0@ != key by {
            assert(init[j] == v[j]);
        }
        lemma_options_absent(init, key);
        assert(v.last() == v[v.len() - 1]);
    }
}

/// The map gives a key the value of the last entry that holds it.
pub proof fn lemma_options_last(v: Seq<(String, String)>, key: Seq<char>, i: int)
    requires
        0 <= i < v.len(),
        v[i].0@ == key,
        absent_from(v, key, i + 1),
    ensures
        options_view(v).contains_key(key),
        options_view(v)[key] == v[i].1@,
    decreases v.len(),
{
    if i < v.len() - 1 {
        let init = v.drop_last();
        assert(init[i] == v[i]);
        assert forall|j: int| i + 1 <= j < init.len() implies (#[trigger] init[j]).0@ != key by {
            assert(init[j] == v[j]);
        }
        lemma_options_last(init, key, i);
        assert(v.last() == v[v.len() - 1]);
    }
}

impl CliError {
    /// The sentence that says why the command line cannot be read.
    pub fn message(&self) -> (m: String)
        ensures
            m@ == self@,
    {
        match self {
            CliError::BadInput(text) => text.clone(),
        }
    }
}

impl ParsedArg {
    /// Reads one argument.
    pub fn from_str(s: &str) -> (r: Result<ParsedArg, CliError>)
        ensures
            match r {
                Ok(arg) => parse_arg(s@) == Ok::<ArgView, Seq<char>>(arg@),
                Err(e) => parse_arg(s@) == Err::<ArgView, Seq<char>>(e@),
            },
    {
        let chars = chars_of(s);
        let n = chars.len();
        if n >= 2 && chars[0] == '-' && chars[1] == '-' {
            let body = s.substring_char(2, n);
            assert(body@ == s@.skip(2));
            match split_once(body, '=') {
                Some((key, value)) => Ok(
                    ParsedArg::Option(String::from_str(key), String::from_str(value)),
                ),
                None => Ok(ParsedArg::Option(String::from_str(body), String::new())),
            }
        } else if n >= 1 && chars[0] == '-' {
            if n == 2 && (chars[1] as u32) < 0x80 {
                let key = s.substring_char(1, 2);
                assert(key@ =~= seq![s@[1]]);
                Ok(ParsedArg::Flag(String::from_str(key)))
            } else {
                let mut text = String::from_str("Invalid option format: ");
                text.append(s);
                Err(CliError::BadInput(text))
            }
        } else {
            Ok(ParsedArg::Argument(String::from_str(s)))
        }
    }
}

impl Cli {
    /// The command line without arguments.
    pub fn new() -> (cli: Cli)
        ensures
            cli@ == empty_cli(),
    {
        let cli = Cli { commands: Vec::new(), flags: Vec::new(), options: Vec::new() };
        assert(cli@.commands =~= empty_cli().commands);
        assert(cli@.flags =~= empty_cli().flags);
        cli
    }

    /// Adds one argument.
    pub fn add(&mut self, arg: ParsedArg)
        ensures
            final(self)@ == add_arg(old(self)@, arg@),
    {
        match arg {
            ParsedArg::Flag(key) => {
                let ghost before = self.flags@;
                self.flags.push(key);
                proof {
                    let after = self.flags@;
                    assert forall|f: Seq<char>|
                        flags_view(after).contains(f) == flags_view(before).insert(key@).contains(
                            f,
                        ) by {
                        if flags_view(after).contains(f) {
                            let i = choose|i: int| 0 <= i < after.len() && #[trigger] after[i]@ == f;
                            if i < before.len() {
                                assert(before[i]@ == f);
                            }
                        }
                        if flags_view(before).contains(f) {
                            let i = choose|i: int|
                                0 <= i < before.len() && #[trigger] before[i]@ == f;
                            assert(after[i]@ == f);
                        }
                        if f == key@ {
                            assert(after[before.len() as int]@ == f);
                        }
                    }
                    assert(flags_view(after) =~= flags_view(before).insert(key@));
                }
            },
            ParsedArg::Option(key, value) => {
                let ghost before = self.options@;
                self.options.push((key, value));
                proof {
                    assert(self.options@.drop_last() =~= before);
                }
            },
            ParsedArg::Argument(text) => {
                let ghost before = self.commands@;
                self.commands.push(text);
                proof {
                    assert(strings_view(self.commands@) =~= strings_view(before).push(text@));
                }
            },
        }
    }

    /// Whether the flag `name` was given.
    pub fn has_flag(&self, name: &str) -> (r: bool)
        ensures
            r == self@.flags.contains(name@),
    {
        let n = self.flags.len();
        let mut i: usize = 0;
        while i < n
            invariant
                n == self.flags.len(),
                i <= n,
                forall|j: int| 0 <= j < i ==> (#[trigger] self.flags@[j])@ != name@,
            decreases n - i,
        {
            if str_eq(self.flags[i].as_str(), name) {
                return true;
            }
            i += 1;
        }
        false
    }

    /// The value of the option `key`, if it was given.
    pub fn option(&self, key: &str) -> (r: Option<&String>)
        ensures
            match r {
                Some(value) => self@.options.contains_key(key@) && self@.options[key@] == value@,
                None => !self@.options.contains_key(key@),
            },
    {
        let mut i: usize = self.options.len();
        while i > 0
            invariant
                i <= self.options.len(),
                absent_from(self.options@, key@, i as int),
            decreases i,
        {
            i -= 1;
            if str_eq(self.options[i].0.as_str(), key) {
                proof {
                    lemma_options_last(self.options@, key@, i as int);
                }
                return Some(&self.options[i].1);
            }
        }
        proof {
            lemma_options_absent(self.options@, key@);
        }
        None
    }

    /// Whether the option `key` was given.
    pub fn has_option(&self, key: &str) -> (r: bool)
        ensures
            r == self@.options.contains_key(key@),
    {
        self.option(key).is_some()
    }
}

/// Reads the arguments of a process. The first is the name of the program and
/// does not count; the first of the others that cannot be read refuses the
/// whole line.
pub fn init(args: &Vec<String>) -> (r: Result<Cli, CliError>)
    ensures
        match r {
            Ok(cli) => parse_args(without_program(strings_view(args@))) == Ok::<CliView, Seq<char>>(
                cli@,
            ),
            Err(e) => parse_args(without_program(strings_view(args@))) == Err::<
                CliView,
                Seq<char>,
            >(e@),
        },
{
    let mut cli = Cli::new();
    let n = args.len();
    let ghost given = without_program(strings_view(args@));
    if n == 0 {
        return Ok(cli);
    }
    let mut i: usize = 1;
    while i < n
        invariant
            n == args.len(),
            1 <= i <= n,
            given == strings_view(args@).skip(1),
            parse_args(given.take(i - 1)) == Ok::<CliView, Seq<char>>(cli@),
        decreases n - i,
    {
        let ghost upto = given.take(i as int);
        proof {
            assert(upto.drop_last() =~= given.take(i - 1));
            assert(upto.last() == args@[i as int]@);
        }
        match ParsedArg::from_str(args[i].as_str()) {
            Ok(arg) => {
                cli.add(arg);
            },
            Err(e) => {
                proof {
                    lemma_parse_args_fails(given, i as int);
                }
                return Err(e);
            },
        }
        i += 1;
    }
    proof {
        assert(given.take(n - 1) =~= given);
    }
    Ok(cli)
}

/// Once the first `k` arguments are refused, the whole line is refused, with
/// the same sentence.
pub proof fn lemma_parse_args_fails(args: Seq<Seq<char>>, k: int)
    requires
        0 <= k <= args.len(),
        parse_args(args.take(k)) is Err,
    ensures
        parse_args(args) == parse_args(args.take(k)),
    decreases args.len() - k,
{
    if k < args.len() {
        let next = args.take(k + 1);
        assert(next.drop_last() =~= args.take(k));
        lemma_parse_args_fails(args, k + 1);
    } else {
        assert(args.take(k) =~= args);
    }
}

} // verus!
