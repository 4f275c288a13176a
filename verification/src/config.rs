//! The configuration of one run.

use crate::chars::{from_chars, lowercase, lowercased, to_chars};
use crate::text::{rows, split_chars, split_on, texts};
use crate::whitespace::{trim, trim_chars};
use vstd::prelude::*;
use vstd::string::StringExecFns;

verus! {

/// The directory that is searched where none is named.
pub const DEFAULT_ROOT: &'static str = ".";

/// The output name that is used where none is given.
pub const DEFAULT_OUTPUT: &'static str = "concatenated";

/// The list of extensions that is used where none is given.
pub const DEFAULT_EXTENSIONS: &'static str = "ts,tsx";

/// What one run was asked to do. It is made once and only read afterwards.
#[derive(Clone, Debug)]
pub struct Config {
    /// The directory to search.
    pub root: String,
    /// The name of the output files, without directory and extension.
    pub output: String,
    /// The extensions whose files are wanted. The extension of a file is
    /// put in lowercase before it is looked up here.
    pub extensions: Vec<String>,
    /// Glob patterns; a path that one of them matches is left out.
    pub exclude: Vec<String>,
    /// Lets files below a `node_modules` directory in.
    pub include_node_modules: bool,
    /// Switches off the list of directories that are ignored by default.
    pub no_default_ignores: bool,
    /// Strips blank lines and needless whitespace from what is written.
    pub strip_spaces: bool,
    /// Lets files without an extension in.
    pub include_no_ext: bool,
    /// Asks for an estimate of the number of tokens.
    pub estimate_tokens: bool,
    /// Keeps the output directory from being opened at the end.
    pub no_open: bool,
}

/// The mathematical form of a `Config`.
pub struct ConfigView {
    pub root: Seq<char>,
    pub output: Seq<char>,
    pub extensions: Seq<Seq<char>>,
    pub exclude: Seq<Seq<char>>,
    pub include_node_modules: bool,
    pub no_default_ignores: bool,
    pub strip_spaces: bool,
    pub include_no_ext: bool,
    pub estimate_tokens: bool,
    pub no_open: bool,
}

impl View for Config {
    type V = ConfigView;

    open spec fn view(&self) -> ConfigView {
        ConfigView {
            root: self.root@,
            output: self.output@,
            extensions: texts(self.extensions@),
            exclude: texts(self.exclude@),
            include_node_modules: self.include_node_modules,
            no_default_ignores: self.no_default_ignores,
            strip_spaces: self.strip_spaces,
            include_no_ext: self.include_no_ext,
            estimate_tokens: self.estimate_tokens,
            no_open: self.no_open,
        }
    }
}

/// The extensions that a comma-separated list names: each item trimmed and
/// in lowercase, in the order of the list.
pub open spec fn listed_extensions(list: Seq<char>) -> Seq<Seq<char>> {
    split_on(list, ',').map_values(|item: Seq<char>| lowercased(trim(item)))
}

/// The configuration of a run that was given no options.
pub open spec fn default_config() -> ConfigView {
    ConfigView {
        root: DEFAULT_ROOT@,
        output: DEFAULT_OUTPUT@,
        extensions: listed_extensions(DEFAULT_EXTENSIONS@),
        exclude: Seq::empty(),
        include_node_modules: false,
        no_default_ignores: false,
        strip_spaces: false,
        include_no_ext: false,
        estimate_tokens: false,
        no_open: false,
    }
}

impl Default for Config {
    /// The configuration of a run that was given no options.
    fn default() -> (cfg: Config)
        ensures
            cfg@ == default_config(),
    {
        let exclude: Vec<String> = Vec::new();
        assert(texts(exclude@) == Seq::<Seq<char>>::empty());
        Config {
            root: String::from_str(DEFAULT_ROOT),
            output: String::from_str(DEFAULT_OUTPUT),
            extensions: parse_extensions(DEFAULT_EXTENSIONS),
            exclude,
            include_node_modules: false,
            no_default_ignores: false,
            strip_spaces: false,
            include_no_ext: false,
            estimate_tokens: false,
            no_open: false,
        }
    }
}

/// Reads a comma-separated list of extensions.
pub fn parse_extensions(list: &str) -> (extensions: Vec<String>)
    ensures
        texts(extensions@) == listed_extensions(list@),
{
    let items = split_chars(&to_chars(list), ',');
    let mut extensions: Vec<String> = Vec::new();
    let mut i: usize = 0;
    while i < items.len()
        invariant
            i <= items.len(),
            rows(items@) == split_on(list@, ','),
            texts(extensions@) == listed_extensions(list@).take(i as int),
        decreases items.len() - i,
    {
        let item = from_chars(&trim_chars(&items[i]));
        extensions.push(lowercase(item.as_str()));
        proof {
            assert(listed_extensions(list@).take(i + 1) == listed_extensions(list@).take(
                i as int,
            ).push(listed_extensions(list@)[i as int]));
        }
        i += 1;
    }
    extensions
}

} // verus!
