use vstd::prelude::*;

verus! {

/// The command-line option that names a config file.
pub const CONFIG_PATH_OPTION: &'static str = "config";

pub const CONFIG_DEFAULT_PATH: &'static str = "./conf.yml";

pub struct Config {
    /// Where the note output is stored.
    pub note_output_path: String,
}

impl Config {
    pub fn from_location(note_output_path: String) -> (r: Config)
        ensures
            r.note_output_path == note_output_path,
    {
        Config { note_output_path }
    }
}

/// The config whose note output goes to `path`.
pub fn read_from_path(path: &str) -> (r: Config)
    ensures
        r.note_output_path@ == path@,
{
    Config { note_output_path: path.to_owned() }
}

} // verus!
