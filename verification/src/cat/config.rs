//! The command line of `cat`.

use vstd::prelude::*;
use crate::config::asks_help;
use crate::config::asks_version;
use crate::config::invalid_option;
use crate::config::invalid_option_text;
use crate::config::known_prefix;
use crate::config::known_prefix_is;
use crate::config::options_of;
use crate::config::parameters_of;
use crate::config::version_text;
use crate::config::Config;
use crate::text::same_text;
use crate::text::texts;

verus! {

/// What `cat` was asked to do.
#[derive(Debug)]
pub struct CatConfig {
    pub files: Vec<String>,
    pub number: bool,
    pub number_nonblank: bool,
    pub show_ends: bool,
    pub squeeze_blank: bool,
    pub show_tabs: bool,
    pub show_nonprinting: bool,
}

/// The mathematical value of a `CatConfig`.
pub struct CatModel {
    pub files: Seq<Seq<char>>,
    pub number: bool,
    pub number_nonblank: bool,
    pub show_ends: bool,
    pub squeeze_blank: bool,
    pub show_tabs: bool,
    pub show_nonprinting: bool,
}

impl View for CatConfig {
    type V = CatModel;

    open spec fn view(&self) -> CatModel {
        CatModel {
            files: texts(self.files@),
            number: self.number,
            number_nonblank: self.number_nonblank,
            show_ends: self.show_ends,
            squeeze_blank: self.squeeze_blank,
            show_tabs: self.show_tabs,
            show_nonprinting: self.show_nonprinting,
        }
    }
}

pub const HELP_TEXT: &'static str = "Usage: cat [OPTION]... [FILE]...
Concatenate FILE(s) to standard output.
            
    -A, --show-all           equivalent to -vET
    -b, --number-nonblank    number nonempty output lines, overrides -n
    -e                       equivalent to -vE
    -E, --show-ends          display $ at end of each line
    -n, --number             number all output lines
    -s, --squeeze-blank      suppress repeated empty output lines
    -t                       equivalent to -vT
    -T, --show-tabs          display TAB characters as ^I
    -v, --show-nonprinting   use ^ and M- notation, except for LFD and TAB
        --help     display this help and exit
        --version  output version information and exit
";

/// A configuration with no files and nothing switched on.
pub open spec fn fresh() -> CatModel {
    CatModel {
        files: Seq::empty(),
        number: false,
        number_nonblank: false,
        show_ends: false,
        squeeze_blank: false,
        show_tabs: false,
        show_nonprinting: false,
    }
}

/// Whether `cat` knows an option.
pub open spec fn known(option: Seq<char>) -> bool {
    ||| option == "--show-all"@
    ||| option == "-A"@
    ||| option == "--number-nonblank"@
    ||| option == "-b"@
    ||| option == "-e"@
    ||| option == "--show-ends"@
    ||| option == "-E"@
    ||| option == "--number"@
    ||| option == "-n"@
    ||| option == "--squeeze-blank"@
    ||| option == "-s"@
    ||| option == "--show-tabs"@
    ||| option == "-T"@
    ||| option == "-t"@
    ||| option == "--show-nonprinting"@
    ||| option == "-v"@
}

/// A configuration after one more option. Numbering the lines that are not
/// empty switches the numbering of all lines off, and keeps it off. An
/// option that `cat` does not know changes nothing.
pub open spec fn with_option(c: CatModel, option: Seq<char>) -> CatModel {
    if option == "--show-all"@ || option == "-A"@ {
        CatModel { show_nonprinting: true, show_ends: true, show_tabs: true, ..c }
    } else if option == "--number-nonblank"@ || option == "-b"@ {
        CatModel { number_nonblank: true, number: false, ..c }
    } else if option == "-e"@ {
        CatModel { show_nonprinting: true, show_ends: true, ..c }
    } else if option == "--show-ends"@ || option == "-E"@ {
        CatModel { show_ends: true, ..c }
    } else if option == "--number"@ || option == "-n"@ {
        CatModel { number: c.number || !c.number_nonblank, ..c }
    } else if option == "--squeeze-blank"@ || option == "-s"@ {
        CatModel { squeeze_blank: true, ..c }
    } else if option == "--show-tabs"@ || option == "-T"@ {
        CatModel { show_tabs: true, ..c }
    } else if option == "-t"@ {
        CatModel { show_nonprinting: true, show_tabs: true, ..c }
    } else if option == "--show-nonprinting"@ || option == "-v"@ {
        CatModel { show_nonprinting: true, ..c }
    } else {
        c
    }
}

/// A configuration after a sequence of options, the first option first.
pub open spec fn with_options(c: CatModel, options: Seq<Seq<char>>) -> CatModel {
    options.fold_left(c, |acc: CatModel, option: Seq<char>| with_option(acc, option))
}

/// A configuration with the parameters of a command line added to its files.
pub open spec fn with_files(c: CatModel, args: Seq<Seq<char>>) -> CatModel {
    CatModel { files: c.files + parameters_of(args), ..c }
}

/// The options of a command line that are read: those before the first that
/// `cat` does not know.
pub open spec fn options_read(args: Seq<Seq<char>>) -> Seq<Seq<char>> {
    options_of(args).take(known_prefix(options_of(args), |o: Seq<char>| known(o)) as int)
}

/// Why a command line is refused, if it is: it asks for help or for the
/// version, it leaves the configuration without a file, or it holds an
/// option that `cat` does not know. The first of these that holds decides.
pub open spec fn refusal(c: CatModel, args: Seq<Seq<char>>) -> Option<Seq<char>> {
    if asks_help(args) {
        Some(HELP_TEXT@)
    } else if asks_version(args) {
        Some(version_text("cat"@))
    } else if with_files(c, args).files.len() == 0 {
        Some(HELP_TEXT@)
    } else if options_read(args).len() < options_of(args).len() {
        Some(invalid_option_text(options_of(args)[options_read(args).len() as int], "cat"@))
    } else {
        None
    }
}

/// A configuration after reading a command line. One that asks for help or
/// for the version changes nothing. Otherwise the parameters are added to the
/// files, and, unless there is no file then, the options are applied in their
/// order up to the first that `cat` does not know.
pub open spec fn parsed(c: CatModel, args: Seq<Seq<char>>) -> CatModel {
    if asks_help(args) || asks_version(args) {
        c
    } else if with_files(c, args).files.len() == 0 {
        with_files(c, args)
    } else {
        with_options(with_files(c, args), options_read(args))
    }
}

impl Config for CatConfig {
    open spec fn spec_bin_name(&self) -> Seq<char> {
        "cat"@
    }

    open spec fn spec_usage(&self) -> Seq<char> {
        HELP_TEXT@
    }

    fn bin_name(&self) -> (name: &'static str) {
        "cat"
    }

    fn usage(&self) -> (text: &'static str) {
        HELP_TEXT
    }
}

impl CatConfig {
    /// A configuration with no files and nothing switched on.
    pub fn new() -> (config: CatConfig)
        ensures
            config@ == fresh(),
    {
        let config = CatConfig {
            files: Vec::new(),
            number: false,
            number_nonblank: false,
            show_ends: false,
            squeeze_blank: false,
            show_tabs: false,
            show_nonprinting: false,
        };
        assert(config@.files =~= Seq::empty());
        config
    }

    /// Applies one option; says whether `cat` knows it.
    pub fn apply(&mut self, option: &str) -> (is_known: bool)
        ensures
            is_known == known(option@),
            final(self)@ == with_option(old(self)@, option@),
    {
        if same_text(option, "--show-all") || same_text(option, "-A") {
            self.show_nonprinting = true;
            self.show_ends = true;
            self.show_tabs = true;
        } else if same_text(option, "--number-nonblank") || same_text(option, "-b") {
            self.number_nonblank = true;
            self.number = false;
        } else if same_text(option, "-e") {
            self.show_nonprinting = true;
            self.show_ends = true;
        } else if same_text(option, "--show-ends") || same_text(option, "-E") {
            self.show_ends = true;
        } else if same_text(option, "--number") || same_text(option, "-n") {
            if !self.number_nonblank {
                self.number = true;
            }
        } else if same_text(option, "--squeeze-blank") || same_text(option, "-s") {
            self.squeeze_blank = true;
        } else if same_text(option, "--show-tabs") || same_text(option, "-T") {
            self.show_tabs = true;
        } else if same_text(option, "-t") {
            self.show_nonprinting = true;
            self.show_tabs = true;
        } else if same_text(option, "--show-nonprinting") || same_text(option, "-v") {
            self.show_nonprinting = true;
        } else {
            return false;
        }
        true
    }

    /// Reads a command line into the configuration. The result is an error
    /// with its message where the command line is refused.
    pub fn parse(&mut self, args: Vec<String>) -> (outcome: Result<(), String>)
        ensures
            final(self)@ == parsed(old(self)@, texts(args@)),
            match outcome {
                Ok(_) => refusal(old(self)@, texts(args@)) is None,
                Err(e) => refusal(old(self)@, texts(args@)) == Some(e@),
            },
    {
        let ghost all = texts(args@);
        let ghost original = self@;
        let base_config = match Config::parse(&*self, args.as_slice()) {
            Ok(config) => config,
            Err(e) => {
                return Err(e);
            },
        };
        let mut files = base_config.parameters;
        let options = base_config.options;
        self.files.append(&mut files);
        assert(self@ == with_files(old(self)@, all)) by {
            assert(self@.files =~= old(self)@.files + parameters_of(all));
        }
        if self.files.len() == 0 {
            return Err(String::from_str(self.usage()));
        }
        let ghost start = self@;
        let ghost given = texts(options@);
        let ghost step = |acc: CatModel, option: Seq<char>| with_option(acc, option);
        let ghost is_known = |o: Seq<char>| known(o);
        let mut i: usize = 0;
        assert(given.take(0).fold_left(start, step) == start) by {
            assert(given.take(0) =~= Seq::empty());
        }
        while i < options.len()
            invariant
                i <= options.len(),
                given == texts(options@),
                given == options_of(all),
                !asks_help(all) && !asks_version(all),
                original == old(self)@,
                all == texts(args@),
                start == with_files(original, all),
                start.files.len() > 0,
                step == |acc: CatModel, option: Seq<char>| with_option(acc, option),
                is_known == |o: Seq<char>| known(o),
                forall|k: int| 0 <= k < i ==> is_known(#[trigger] given[k]),
                self@ == given.take(i as int).fold_left(start, step),
            decreases options.len() - i,
        {
            let ghost before = self@;
            assert(given[i as int] == options@[i as int]@);
            if !self.apply(options[i].as_str()) {
                proof {
                    known_prefix_is(given, is_known, i as nat);
                    assert(self@ == before);
                    assert(options_read(all) == given.take(i as int));
                }
                return Err(invalid_option(options[i].as_str(), "cat"));
            }
            proof {
                assert(given.take(i + 1).drop_last() =~= given.take(i as int));
                assert(is_known(given[i as int]));
            }
            i += 1;
        }
        proof {
            known_prefix_is(given, is_known, i as nat);
            assert(given.take(i as int) =~= given);
        }
        Ok(())
    }
}

} // verus!
