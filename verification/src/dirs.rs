//! The application's directory layout under the user's home.

use vstd::prelude::*;

use vstd::string::StringExecFns;

verus! {

/// The configuration, data and cache directories of the application: a
/// hidden base directory named after the application, with one
/// subdirectory for each purpose.  Creating the directories on disk is the
/// runtime's job.
#[derive(Debug)]
pub struct Dirs {
    pub config_dir: String,
    pub data_dir: String,
    pub cache_dir: String,
}

impl Dirs {
    /// Computes the directory paths under the given home directory.
    pub fn new(home_dir: &str, app_name: &str) -> (r: Dirs)
        ensures
            r.config_dir@ == home_dir@ + "/."@ + app_name@ + "/config"@,
            r.data_dir@ == home_dir@ + "/."@ + app_name@ + "/data"@,
            r.cache_dir@ == home_dir@ + "/."@ + app_name@ + "/cache"@,
    {
        let mut base = home_dir.to_owned();
        base.append("/.");
        base.append(app_name);

        let mut config_dir = base.clone();
        config_dir.append("/config");
        let mut data_dir = base.clone();
        data_dir.append("/data");
        let mut cache_dir = base;
        cache_dir.append("/cache");

        Dirs { config_dir, data_dir, cache_dir }
    }
}

} // verus!
