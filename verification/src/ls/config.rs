//! The command line of `ls`.

use vstd::prelude::*;
use crate::config::asks_help;
use crate::config::asks_version;
use crate::config::invalid_option;
use crate::config::invalid_option_text;
use crate::config::known_prefix;
use crate::config::known_prefix_is;
use crate::config::options_of;
use crate::config::parameters_of;
use crate::config::version_text;
use crate::config::Config;
use crate::text::same_text;
use crate::text::texts;

verus! {

/// What `ls` was asked to do.
#[derive(Debug)]
pub struct LsConfig {
    pub paths: Vec<String>,
    pub all: bool,
    pub almost_all: bool,
    pub creation_time: bool,
    pub directory_view: bool,
    pub full_time: bool,
    pub group_view: bool,
    pub reverse: bool,
    pub recurse: bool,
    pub size_sort: bool,
    pub modify_sort: bool,
    pub access_sort: bool,
    pub one_per_line: bool,
}

/// The mathematical value of an `LsConfig`.
pub struct LsModel {
    pub paths: Seq<Seq<char>>,
    pub all: bool,
    pub almost_all: bool,
    pub creation_time: bool,
    pub directory_view: bool,
    pub full_time: bool,
    pub group_view: bool,
    pub reverse: bool,
    pub recurse: bool,
    pub size_sort: bool,
    pub modify_sort: bool,
    pub access_sort: bool,
    pub one_per_line: bool,
}

impl View for LsConfig {
    type V = LsModel;

    open spec fn view(&self) -> LsModel {
        LsModel {
            paths: texts(self.paths@),
            all: self.all,
            almost_all: self.almost_all,
            creation_time: self.creation_time,
            directory_view: self.directory_view,
            full_time: self.full_time,
            group_view: self.group_view,
            reverse: self.reverse,
            recurse: self.recurse,
            size_sort: self.size_sort,
            modify_sort: self.modify_sort,
            access_sort: self.access_sort,
            one_per_line: self.one_per_line,
        }
    }
}

pub const HELP_TEXT: &'static str = "Usage: ls [OPTION]... [FILE]...
List information about the FILEs (the current directory by default).

  -a, --all                  do not ignore entries starting with .
  -A, --almost-all           do not list implied . and ..
  -c                         with -t: sort by, and show, creation time.
                               otherwise: show creation time and sort by name;
  -d, --directory            list directories themselves, not their contents
      --full-time            Full ISO Time
  -G, --no-group             don't print group names
  -r, --reverse              reverse order while sorting
  -R, --recursive            list subdirectories recursively
  -S                         sort by file size, largest first
  -t                         sort by modification time, newest first
  -u                         with -t: sort by, and show, access time;
                               otherwise: show access time and sort by name;
  -1                         list one file per line.
      --help     display this help and exit
      --version  output version information and exit

Exit status:
 0  if OK,
 1  if minor problems (e.g., cannot access subdirectory),
 2  if serious trouble (e.g., cannot access command-line argument).
";

/// A configuration with no paths, group names shown and nothing else
/// switched on.
pub open spec fn fresh() -> LsModel {
    LsModel {
        paths: Seq::empty(),
        all: false,
        almost_all: false,
        creation_time: false,
        directory_view: false,
        full_time: false,
        group_view: true,
        reverse: false,
        recurse: false,
        size_sort: false,
        modify_sort: false,
        access_sort: false,
        one_per_line: false,
    }
}

/// One switch of `ls`.
#[derive(Clone, Copy, Debug, PartialEq, Eq, Structural)]
pub enum LsFlag {
    All,
    AlmostAll,
    CreationTime,
    DirectoryView,
    FullTime,
    NoGroup,
    Reverse,
    Recurse,
    SizeSort,
    ModifySort,
    AccessSort,
    OnePerLine,
}

/// The switch that an option stands for; `None` for an option that `ls` does
/// not know.
pub open spec fn flag_of(option: Seq<char>) -> Option<LsFlag> {
    if option == "--all"@ || option == "-a"@ {
        Some(LsFlag::All)
    } else if option == "--almost-all"@ || option == "-A"@ {
        Some(LsFlag::AlmostAll)
    } else if option == "-c"@ {
        Some(LsFlag::CreationTime)
    } else if option == "--directory"@ || option == "-d"@ {
        Some(LsFlag::DirectoryView)
    } else if option == "--full-time"@ {
        Some(LsFlag::FullTime)
    } else if option == "--no-group"@ || option == "-G"@ {
        Some(LsFlag::NoGroup)
    } else if option == "--reverse"@ || option == "-r"@ {
        Some(LsFlag::Reverse)
    } else if option == "--recursive"@ || option == "-R"@ {
        Some(LsFlag::Recurse)
    } else if option == "-S"@ {
        Some(LsFlag::SizeSort)
    } else if option == "-t"@ {
        Some(LsFlag::ModifySort)
    } else if option == "-u"@ {
        Some(LsFlag::AccessSort)
    } else if option == "-1"@ {
        Some(LsFlag::OnePerLine)
    } else {
        None
    }
}

/// Whether `ls` knows an option.
pub open spec fn known(option: Seq<char>) -> bool {
    flag_of(option) is Some
}

/// A configuration with one more switch set. Each switches its part on, but
/// `NoGroup`, which switches the group names off.
pub open spec fn with_flag(c: LsModel, flag: LsFlag) -> LsModel {
    match flag {
        LsFlag::All => LsModel { all: true, ..c },
        LsFlag::AlmostAll => LsModel { almost_all: true, ..c },
        LsFlag::CreationTime => LsModel { creation_time: true, ..c },
        LsFlag::DirectoryView => LsModel { directory_view: true, ..c },
        LsFlag::FullTime => LsModel { full_time: true, ..c },
        LsFlag::NoGroup => LsModel { group_view: false, ..c },
        LsFlag::Reverse => LsModel { reverse: true, ..c },
        LsFlag::Recurse => LsModel { recurse: true, ..c },
        LsFlag::SizeSort => LsModel { size_sort: true, ..c },
        LsFlag::ModifySort => LsModel { modify_sort: true, ..c },
        LsFlag::AccessSort => LsModel { access_sort: true, ..c },
        LsFlag::OnePerLine => LsModel { one_per_line: true, ..c },
    }
}

/// A configuration after one more option. An option that `ls` does not know
/// changes nothing.
pub open spec fn with_option(c: LsModel, option: Seq<char>) -> LsModel {
    match flag_of(option) {
        Some(flag) => with_flag(c, flag),
        None => c,
    }
}

/// A configuration after a sequence of options, the first option first.
pub open spec fn with_options(c: LsModel, options: Seq<Seq<char>>) -> LsModel {
    options.fold_left(c, |acc: LsModel, option: Seq<char>| with_option(acc, option))
}

/// A configuration with the parameters of a command line added to its paths.
pub open spec fn with_paths(c: LsModel, args: Seq<Seq<char>>) -> LsModel {
    LsModel { paths: c.paths + parameters_of(args), ..c }
}

/// The options of a command line that are read: those before the first that
/// `ls` does not know.
pub open spec fn options_read(args: Seq<Seq<char>>) -> Seq<Seq<char>> {
    options_of(args).take(known_prefix(options_of(args), |o: Seq<char>| known(o)) as int)
}

/// Why a command line is refused, if it is: it asks for help or for the
/// version, or it holds an option that `ls` does not know. The first of these
/// that holds decides.
pub open spec fn refusal(args: Seq<Seq<char>>) -> Option<Seq<char>> {
    if asks_help(args) {
        Some(HELP_TEXT@)
    } else if asks_version(args) {
        Some(version_text("ls"@))
    } else if options_read(args).len() < options_of(args).len() {
        Some(invalid_option_text(options_of(args)[options_read(args).len() as int], "ls"@))
    } else {
        None
    }
}

/// A configuration after reading a command line. One that asks for help or
/// for the version changes nothing. Otherwise the parameters are added to the
/// paths, and the options are applied in their order up to the first that
/// `ls` does not know.
pub open spec fn parsed(c: LsModel, args: Seq<Seq<char>>) -> LsModel {
    if asks_help(args) || asks_version(args) {
        c
    } else {
        with_options(with_paths(c, args), options_read(args))
    }
}

impl Config for LsConfig {
    open spec fn spec_bin_name(&self) -> Seq<char> {
        "ls"@
    }

    open spec fn spec_usage(&self) -> Seq<char> {
        HELP_TEXT@
    }

    fn bin_name(&self) -> (name: &'static str) {
        "ls"
    }

    fn usage(&self) -> (text: &'static str) {
        HELP_TEXT
    }
}

/// The switch that an option stands for.
pub fn flag_for(option: &str) -> (flag: Option<LsFlag>)
    ensures
        flag == flag_of(option@),
{
    if same_text(option, "--all") || same_text(option, "-a") {
        Some(LsFlag::All)
    } else if same_text(option, "--almost-all") || same_text(option, "-A") {
        Some(LsFlag::AlmostAll)
    } else if same_text(option, "-c") {
        Some(LsFlag::CreationTime)
    } else if same_text(option, "--directory") || same_text(option, "-d") {
        Some(LsFlag::DirectoryView)
    } else if same_text(option, "--full-time") {
        Some(LsFlag::FullTime)
    } else if same_text(option, "--no-group") || same_text(option, "-G") {
        Some(LsFlag::NoGroup)
    } else if same_text(option, "--reverse") || same_text(option, "-r") {
        Some(LsFlag::Reverse)
    } else if same_text(option, "--recursive") || same_text(option, "-R") {
        Some(LsFlag::Recurse)
    } else if same_text(option, "-S") {
        Some(LsFlag::SizeSort)
    } else if same_text(option, "-t") {
        Some(LsFlag::ModifySort)
    } else if same_text(option, "-u") {
        Some(LsFlag::AccessSort)
    } else if same_text(option, "-1") {
        Some(LsFlag::OnePerLine)
    } else {
        None
    }
}

impl LsConfig {
    /// A configuration with no paths, group names shown and nothing else
    /// switched on.
    pub fn new() -> (config: LsConfig)
        ensures
            config@ == fresh(),
    {
        let config = LsConfig {
            paths: Vec::new(),
            all: false,
            almost_all: false,
            creation_time: false,
            directory_view: false,
            full_time: false,
            group_view: true,
            reverse: false,
            recurse: false,
            size_sort: false,
            modify_sort: false,
            access_sort: false,
            one_per_line: false,
        };
        assert(config@.paths =~= Seq::empty());
        config
    }

    /// Sets one switch.
    pub fn set(&mut self, flag: LsFlag)
        ensures
            final(self)@ == with_flag(old(self)@, flag),
    {
        match flag {
            LsFlag::All => {
                self.all = true;
            },
            LsFlag::AlmostAll => {
                self.almost_all = true;
            },
            LsFlag::CreationTime => {
                self.creation_time = true;
            },
            LsFlag::DirectoryView => {
                self.directory_view = true;
            },
            LsFlag::FullTime => {
                self.full_time = true;
            },
            LsFlag::NoGroup => {
                self.group_view = false;
            },
            LsFlag::Reverse => {
                self.reverse = true;
            },
            LsFlag::Recurse => {
                self.recurse = true;
            },
            LsFlag::SizeSort => {
                self.size_sort = true;
            },
            LsFlag::ModifySort => {
                self.modify_sort = true;
            },
            LsFlag::AccessSort => {
                self.access_sort = true;
            },
            LsFlag::OnePerLine => {
                self.one_per_line = true;
            },
        }
    }

    /// Applies one option; says whether `ls` knows it.
    pub fn apply(&mut self, option: &str) -> (is_known: bool)
        ensures
            is_known == known(option@),
            final(self)@ == with_option(old(self)@, option@),
    {
        match flag_for(option) {
            Some(flag) => {
                self.set(flag);
                true
            },
            None => false,
        }
    }

    /// Reads a command line into the configuration. The result is an error
    /// with its message where the command line is refused.
    pub fn parse(&mut self, args: Vec<String>) -> (outcome: Result<(), String>)
        ensures
            final(self)@ == parsed(old(self)@, texts(args@)),
            match outcome {
                Ok(_) => refusal(texts(args@)) is None,
                Err(e) => refusal(texts(args@)) == Some(e@),
            },
    {
        let ghost all = texts(args@);
        let ghost original = self@;
        let base_config = match Config::parse(&*self, args.as_slice()) {
            Ok(config) => config,
            Err(e) => {
                return Err(e);
            },
        };
        let mut paths = base_config.parameters;
        let options = base_config.options;
        self.paths.append(&mut paths);
        assert(self@ == with_paths(old(self)@, all)) by {
            assert(self@.paths =~= old(self)@.paths + parameters_of(all));
        }
        let ghost start = self@;
        let ghost given = texts(options@);
        let ghost step = |acc: LsModel, option: Seq<char>| with_option(acc, option);
        let ghost is_known = |o: Seq<char>| known(o);
        let mut i: usize = 0;
        assert(given.take(0).fold_left(start, step) == start) by {
            assert(given.take(0) =~= Seq::empty());
        }
        while i < options.len()
            invariant
                i <= options.len(),
                given == texts(options@),
                given == options_of(all),
                !asks_help(all) && !asks_version(all),
                original == old(self)@,
                all == texts(args@),
                start == with_paths(original, all),
                step == |acc: LsModel, option: Seq<char>| with_option(acc, option),
                is_known == |o: Seq<char>| known(o),
                forall|k: int| 0 <= k < i ==> is_known(#[trigger] given[k]),
                self@ == given.take(i as int).fold_left(start, step),
            decreases options.len() - i,
        {
            let ghost before = self@;
            assert(given[i as int] == options@[i as int]@);
            if !self.apply(options[i].as_str()) {
                proof {
                    known_prefix_is(given, is_known, i as nat);
                    assert(self@ == before);
                    assert(options_read(all) == given.take(i as int));
                }
                return Err(invalid_option(options[i].as_str(), "ls"));
            }
            proof {
                assert(given.take(i + 1).drop_last() =~= given.take(i as int));
                assert(is_known(given[i as int]));
            }
            i += 1;
        }
        proof {
            known_prefix_is(given, is_known, i as nat);
            assert(given.take(i as int) =~= given);
        }
        Ok(())
    }
}

} // verus!
