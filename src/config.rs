use vstd::prelude::*;

use crate::matcher::RegexPattern;

verus! {

/// The settings of one search, fixed before the walk begins.
pub struct Config {
    /// The working directory at startup, against which paths are shown
    /// when `relative` is set.
    pub cwd: String,
    /// Descend into directories below the root.
    pub recursive: bool,
    /// Prefix each match with its file and line number.
    pub location: bool,
    /// Follow symbolic links instead of skipping them.
    pub followlinks: bool,
    /// Compare a literal needle without regard to case.
    pub insensitive: bool,
    /// Report warnings, which are otherwise dropped.
    pub warnings: bool,
    /// Show paths relative to `cwd`.
    pub relative: bool,
    /// The regular expression, when the needle is one.
    pub regex: Option<RegexPattern>,
}

impl Config {
    /// The source of the regular expression, if one is set.
    pub open spec fn regex_source(&self) -> Option<Seq<char>> {
        match self.regex {
            Some(p) => Some(p@),
            None => None,
        }
    }

    /// A regular expression carries its own case rules: the case flag is
    /// kept only for a literal needle.
    pub open spec fn well_formed(&self) -> bool {
        self.regex is Some ==> !self.insensitive
    }

    /// Builds the settings; `insensitive` is dropped when `regex` is given.
    pub fn new(
        cwd: String,
        recursive: bool,
        location: bool,
        followlinks: bool,
        insensitive: bool,
        warnings: bool,
        relative: bool,
        regex: Option<RegexPattern>,
    ) -> (r: Config)
        ensures
            r.well_formed(),
            r.cwd == cwd,
            r.recursive == recursive,
            r.location == location,
            r.followlinks == followlinks,
            r.insensitive == (insensitive && regex is None),
            r.warnings == warnings,
            r.relative == relative,
            r.regex == regex,
    {
        let insensitive = insensitive && regex.is_none();
        Config { cwd, recursive, location, followlinks, insensitive, warnings, relative, regex }
    }
}

} // verus!
