//! The command line of `yes`.

use vstd::prelude::*;
use crate::config::asks_help;
use crate::config::asks_version;
use crate::config::parameters_of;
use crate::config::version_text;
use crate::config::Config;
use crate::text::texts;

verus! {

/// What `yes` was asked to repeat.
#[derive(Debug)]
pub struct YesConfig {
    pub output_string: String,
}

impl View for YesConfig {
    type V = Seq<char>;

    open spec fn view(&self) -> Seq<char> {
        self.output_string@
    }
}

pub const HELP_TEXT: &'static str = "Usage: yes [STRING]...
    or:  yes OPTION
Repeatedly output a line with all specified STRING(s), or 'y'.

    --help     display this help and exit
    --version  output version information and exit
";

/// The words one after another, with one space between each two.
pub open spec fn spaced(words: Seq<Seq<char>>) -> Seq<char>
    decreases words.len(),
{
    if words.len() == 0 {
        Seq::empty()
    } else if words.len() == 1 {
        words[0]
    } else {
        spaced(words.drop_last()) + seq![' '] + words.last()
    }
}

/// The line that a command line asks for: its parameters with spaces between
/// them, or `y` where it has none. Options are passed over.
pub open spec fn line_of(args: Seq<Seq<char>>) -> Seq<char> {
    if parameters_of(args).len() == 0 {
        seq!['y']
    } else {
        spaced(parameters_of(args))
    }
}

/// Why a command line is refused, if it is: it asks for help or, if not
/// that, for the version.
pub open spec fn refusal(args: Seq<Seq<char>>) -> Option<Seq<char>> {
    if asks_help(args) {
        Some(HELP_TEXT@)
    } else if asks_version(args) {
        Some(version_text("yes"@))
    } else {
        None
    }
}

impl Config for YesConfig {
    open spec fn spec_bin_name(&self) -> Seq<char> {
        "yes"@
    }

    open spec fn spec_usage(&self) -> Seq<char> {
        HELP_TEXT@
    }

    fn bin_name(&self) -> (name: &'static str) {
        "yes"
    }

    fn usage(&self) -> (text: &'static str) {
        HELP_TEXT
    }
}

impl YesConfig {
    /// A configuration with an empty line.
    pub fn new() -> (config: YesConfig)
        ensures
            config@ == Seq::<char>::empty(),
    {
        YesConfig { output_string: String::new() }
    }

    /// Reads a command line into the configuration: the line that it asks
    /// for is added to the line held so far. A command line that is refused
    /// changes nothing.
    pub fn parse(&mut self, args: Vec<String>) -> (outcome: Result<(), String>)
        ensures
            match outcome {
                Ok(_) => refusal(texts(args@)) is None && final(self)@ == old(self)@ + line_of(
                    texts(args@),
                ),
                Err(e) => refusal(texts(args@)) == Some(e@) && final(self)@ == old(self)@,
            },
    {
        let base_config = match Config::parse(&*self, args.as_slice()) {
            Ok(config) => config,
            Err(e) => {
                return Err(e);
            },
        };
        let parameters = base_config.parameters;
        let ghost words = texts(parameters@);
        if parameters.len() == 0 {
            self.output_string.push('y');
            assert(self@ =~= old(self)@ + seq!['y']);
            return Ok(());
        }
        let mut i: usize = 0;
        assert(self@ =~= old(self)@ + spaced(words.take(0)));
        while i < parameters.len()
            invariant
                i <= parameters.len(),
                words == texts(parameters@),
                self@ == old(self)@ + spaced(words.take(i as int)),
            decreases parameters.len() - i,
        {
            proof {
                assert(words.take(i + 1).drop_last() =~= words.take(i as int));
                assert(words.take(i + 1).last() == parameters@[i as int]@);
            }
            if i > 0 {
                self.output_string.push(' ');
            }
            self.output_string.append(parameters[i].as_str());
            assert(self@ =~= old(self)@ + spaced(words.take(i + 1))) by {
                if i == 0 {
                    assert(spaced(words.take(0)) =~= Seq::empty());
                    assert(words.take(1)[0] == parameters@[0]@);
                }
            }
            i += 1;
        }
        assert(words.take(i as int) =~= words);
        Ok(())
    }
}

} // verus!
