//! What the utilities share in reading their command line.

use vstd::prelude::*;
use crate::text::same_text;
use crate::text::texts;

verus! {

/// The version that every utility reports.
pub const VERSION: &'static str = "0.1.0";

/// The arguments of a command line, sorted into parameters and options.
#[derive(Clone, Debug)]
pub struct BaseConfig {
    pub parameters: Vec<String>,
    pub options: Vec<String>,
}

/// The mathematical value of a `BaseConfig`.
pub struct BaseModel {
    pub parameters: Seq<Seq<char>>,
    pub options: Seq<Seq<char>>,
}

impl View for BaseConfig {
    type V = BaseModel;

    open spec fn view(&self) -> BaseModel {
        BaseModel { parameters: texts(self.parameters@), options: texts(self.options@) }
    }
}

/// Whether an argument is an option: it begins with a hyphen.
pub open spec fn is_option(arg: Seq<char>) -> bool {
    arg.len() > 0 && arg[0] == '-'
}

/// The arguments after the program's name.
pub open spec fn after_program(args: Seq<Seq<char>>) -> Seq<Seq<char>> {
    if args.len() == 0 {
        args
    } else {
        args.skip(1)
    }
}

/// The options of a command line, in their order.
pub open spec fn options_of(args: Seq<Seq<char>>) -> Seq<Seq<char>> {
    after_program(args).filter(|arg: Seq<char>| is_option(arg))
}

/// The parameters of a command line, in their order: the arguments that are
/// no options.
pub open spec fn parameters_of(args: Seq<Seq<char>>) -> Seq<Seq<char>> {
    after_program(args).filter(|arg: Seq<char>| !is_option(arg))
}

/// Whether a command line asks for the usage text: any argument, the first
/// too, is `--help`.
pub open spec fn asks_help(args: Seq<Seq<char>>) -> bool {
    args.contains("--help"@)
}

/// Whether a command line asks for the version: any argument, the first
/// too, is `--version`.
pub open spec fn asks_version(args: Seq<Seq<char>>) -> bool {
    args.contains("--version"@)
}

/// The line that reports the version of a utility.
pub open spec fn version_text(bin_name: Seq<char>) -> Seq<char> {
    bin_name + " (Win32CoreUtils) v"@ + VERSION@
}

/// Whether an argument is an option.
pub fn option_like(arg: &str) -> (b: bool)
    ensures
        b == is_option(arg@),
{
    !arg.is_empty() && arg.get_char(0) == '-'
}

/// The number of options before the first that `known` does not hold of; all
/// of them where it holds of each.
pub open spec fn known_prefix(options: Seq<Seq<char>>, known: spec_fn(Seq<char>) -> bool) -> nat
    decreases options.len(),
{
    if options.len() == 0 || !known(options[0]) {
        0
    } else {
        1 + known_prefix(options.skip(1), known)
    }
}

/// Where the known options end: each of the first `n` is known, and the
/// count stops at an unknown option or at the end.
pub proof fn known_prefix_is(
    options: Seq<Seq<char>>,
    known: spec_fn(Seq<char>) -> bool,
    n: nat,
)
    requires
        n <= options.len(),
        forall|i: int| 0 <= i < n ==> known(#[trigger] options[i]),
        n == options.len() || !known(options[n as int]),
    ensures
        known_prefix(options, known) == n,
    decreases n,
{
    if n > 0 {
        let rest = options.skip(1);
        assert forall|i: int| 0 <= i < n - 1 implies known(#[trigger] rest[i]) by {
            assert(rest[i] == options[i + 1]);
        }
        known_prefix_is(rest, known, (n - 1) as nat);
    }
}

/// The message for an option that a utility does not know.
pub open spec fn invalid_option_text(option: Seq<char>, bin_name: Seq<char>) -> Seq<char> {
    "invalid option: "@ + option + "\n Try "@ + bin_name + " --help for more information"@
}

/// The message for an option that a utility does not know.
pub fn invalid_option(option: &str, bin_name: &str) -> (message: String)
    ensures
        message@ == invalid_option_text(option@, bin_name@),
{
    let mut message = String::from_str("invalid option: ");
    message.append(option);
    message.append("\n Try ");
    message.append(bin_name);
    message.append(" --help for more information");
    message
}

/// Whether any of the arguments is `wanted`.
pub fn has_argument(args: &[String], wanted: &str) -> (found: bool)
    ensures
        found == texts(args@).contains(wanted@),
{
    let mut i: usize = 0;
    while i < args.len()
        invariant
            i <= args.len(),
            forall|k: int| 0 <= k < i ==> texts(args@)[k] != wanted@,
        decreases args.len() - i,
    {
        if same_text(args[i].as_str(), wanted) {
            assert(texts(args@)[i as int] == wanted@);
            return true;
        }
        i += 1;
    }
    false
}

/// The arguments after the first that are options, or those that are not.
pub fn gather(args: &[String], options: bool) -> (found: Vec<String>)
    ensures
        texts(found@) == if options {
            options_of(texts(args@))
        } else {
            parameters_of(texts(args@))
        },
{
    let ghost all = texts(args@);
    let ghost pred = if options {
        |arg: Seq<char>| is_option(arg)
    } else {
        |arg: Seq<char>| !is_option(arg)
    };
    let mut found: Vec<String> = Vec::new();
    if args.len() == 0 {
        proof {
            reveal(Seq::filter);
            assert(texts(found@) =~= all.filter(pred));
        }
        return found;
    }
    let mut i: usize = 1;
    proof {
        reveal(Seq::filter);
        assert(all.skip(1).take(0) =~= Seq::empty());
        assert(texts(found@) =~= all.skip(1).take(0).filter(pred));
    }
    while i < args.len()
        invariant
            1 <= i <= args.len(),
            all == texts(args@),
            pred == if options {
                |arg: Seq<char>| is_option(arg)
            } else {
                |arg: Seq<char>| !is_option(arg)
            },
            texts(found@) == all.skip(1).take(i - 1).filter(pred),
        decreases args.len() - i,
    {
        let ghost before = found@;
        let wanted = option_like(args[i].as_str()) == options;
        proof {
            assert(all.skip(1).take(i as int) =~= all.skip(1).take(i - 1).push(all[i as int]));
            all.skip(1).take(i - 1).lemma_filter_push(all[i as int], pred);
            assert(all[i as int] == args@[i as int]@);
            assert(wanted == pred(all[i as int]));
        }
        if wanted {
            found.push(args[i].clone());
            assert(texts(found@) =~= texts(before).push(all[i as int]));
        }
        i += 1;
    }
    assert(all.skip(1).take(i - 1) =~= all.skip(1));
    found
}

/// What a utility tells of itself, and how it reads its command line.
pub trait Config {
    /// The characters of the utility's name.
    spec fn spec_bin_name(&self) -> Seq<char>;

    /// The characters of the utility's usage text.
    spec fn spec_usage(&self) -> Seq<char>;

    /// The name of the utility.
    fn bin_name(&self) -> (name: &'static str)
        ensures
            name@ == self.spec_bin_name(),
    ;

    /// The usage text of the utility.
    fn usage(&self) -> (text: &'static str)
        ensures
            text@ == self.spec_usage(),
    ;

    /// Sorts a command line into parameters and options. A command line that
    /// asks for help is answered with the usage text, and one that asks for
    /// the version with the version line, as an error; help goes first.
    fn parse(&self, args: &[String]) -> (outcome: Result<BaseConfig, String>)
        ensures
            match outcome {
                Ok(base) => {
                    &&& !asks_help(texts(args@))
                    &&& !asks_version(texts(args@))
                    &&& base@.parameters == parameters_of(texts(args@))
                    &&& base@.options == options_of(texts(args@))
                },
                Err(e) => if asks_help(texts(args@)) {
                    e@ == self.spec_usage()
                } else {
                    asks_version(texts(args@)) && e@ == version_text(self.spec_bin_name())
                },
            },
    {
        if let Some(err) = self.check_help(args) {
            return Err(err);
        }
        if let Some(err) = self.check_version(args) {
            return Err(err);
        }
        Ok(
            BaseConfig {
                parameters: self.gather_parameters(args),
                options: self.gather_options(args),
            },
        )
    }

    /// The options of a command line: the arguments after the first that
    /// begin with a hyphen.
    fn gather_options(&self, args: &[String]) -> (options: Vec<String>)
        ensures
            texts(options@) == options_of(texts(args@)),
    {
        gather(args, true)
    }

    /// The parameters of a command line: the arguments after the first that
    /// do not begin with a hyphen.
    fn gather_parameters(&self, args: &[String]) -> (parameters: Vec<String>)
        ensures
            texts(parameters@) == parameters_of(texts(args@)),
    {
        gather(args, false)
    }

    /// The usage text, where the command line asks for it.
    fn check_help(&self, args: &[String]) -> (answer: Option<String>)
        ensures
            match answer {
                Some(text) => asks_help(texts(args@)) && text@ == self.spec_usage(),
                None => !asks_help(texts(args@)),
            },
    {
        if has_argument(args, "--help") {
            return Some(String::from_str(self.usage()));
        }
        None
    }

    /// The version line, where the command line asks for it.
    fn check_version(&self, args: &[String]) -> (answer: Option<String>)
        ensures
            match answer {
                Some(text) => asks_version(texts(args@)) && text@ == version_text(
                    self.spec_bin_name(),
                ),
                None => !asks_version(texts(args@)),
            },
    {
        if has_argument(args, "--version") {
            let mut line = String::from_str(self.bin_name());
            line.append(" (Win32CoreUtils) v");
            line.append(VERSION);
            return Some(line);
        }
        None
    }
}

} // verus!
