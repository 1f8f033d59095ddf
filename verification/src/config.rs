//! The command line: which directory to work on.

use vstd::prelude::*;

verus! {

/// The settings of one invocation.
#[derive(Debug)]
pub struct Config<'a> {
    /// The directory whose files are to be renamed.
    pub dir: &'a str,
}

impl<'a> Config<'a> {
    /// What `new` answers when no directory was named.
    pub open spec fn missing_argument() -> Seq<char> {
        "Not enough arguments"@
    }

    /// Reads the settings from the argument list of the process: the program's
    /// own name first, then the directory. Anything after the directory is
    /// ignored.
    pub fn new(args: &'a [String]) -> (r: Result<Config<'a>, &'static str>)
        ensures
            args@.len() < 2 <==> r is Err,
            r matches Err(message) ==> message@ == Self::missing_argument(),
            r matches Ok(config) ==> config.dir@ == args@[1]@,
    {
        if args.len() < 2 {
            return Err("Not enough arguments");
        }
        let dir = &args[1];
        Ok(Config { dir: dir.as_str() })
    }
}

} // verus!
