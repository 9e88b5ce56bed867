//! Resolution of configuration files across an ordered list of
//! configuration directories: the first directory holding the file
//! wins.

use vstd::prelude::*;

use vstd::string::StringExecFns;

verus! {

/// The path of `name` under the directory `dir`.
pub open spec fn join_path(dir: Seq<char>, name: Seq<char>) -> Seq<char> {
    dir + "/"@ + name
}

/// Relies on std::path::Path::exists: whether anything exists at the
/// path at probe time. Nothing can be promised of the answer.
#[verifier::external_body]
fn path_exists(path: &String) -> bool {
    std::path::Path::new(path.as_str()).exists()
}

/// The ordered configuration directories of this installation.
#[derive(Debug)]
pub struct Resources {
    config_paths: Vec<String>,
}

impl Clone for Resources {
    fn clone(&self) -> (r: Self)
        ensures
            r.paths() == self.paths(),
    {
        let mut config_paths: Vec<String> = Vec::new();
        let mut i: usize = 0;
        while i < self.config_paths.len()
            invariant
                i <= self.config_paths@.len(),
                config_paths@.len() == i,
                forall|k: int|
                    0 <= k < i ==> (#[trigger] config_paths@[k])@ == self.config_paths@[k]@,
            decreases self.config_paths@.len() - i,
        {
            config_paths.push(self.config_paths[i].clone());
            i += 1;
        }
        let r = Resources { config_paths };
        proof {
            assert(r.paths() =~= self.paths());
        }
        r
    }
}

impl Resources {
    /// The directories, as character sequences, in search order.
    pub closed spec fn paths(&self) -> Seq<Seq<char>> {
        self.config_paths@.map_values(|s: String| s@)
    }

    pub fn new(config_paths: Vec<String>) -> (r: Self)
        ensures
            r.paths() == config_paths@.map_values(|s: String| s@),
    {
        Resources { config_paths }
    }

    /// The path of `file_name` under the first directory where it is
    /// present, if any; which directory answers depends on what is on
    /// disk at probe time.
    pub fn file(&self, file_name: &str) -> (r: Option<String>)
        ensures
            match r {
                Some(p) => exists|i: int|
                    0 <= i < self.paths().len() && p@ == join_path(
                        #[trigger] self.paths()[i],
                        file_name@,
                    ),
                None => true,
            },
    {
        let n = self.config_paths.len();
        let mut i: usize = 0;
        while i < n
            invariant
                n == self.config_paths@.len(),
                i <= n,
            decreases n - i,
        {
            let file_path = self.config_paths[i].clone().concat("/").concat(file_name);
            proof {
                assert(file_path@ == join_path(self.paths()[i as int], file_name@));
            }
            if path_exists(&file_path) {
                return Some(file_path);
            }
            i += 1;
        }
        None
    }

    /// The path of an icon file, searched under the `icons` directory of
    /// each configuration directory.
    pub fn icon(&self, icon_file: &str) -> (r: Option<String>)
        ensures
            match r {
                Some(p) => exists|i: int|
                    0 <= i < self.paths().len() && p@ == join_path(
                        #[trigger] self.paths()[i],
                        "icons/"@ + icon_file@,
                    ),
                None => true,
            },
    {
        let name = "icons/".to_owned().concat(icon_file);
        self.file(name.as_str())
    }

    /// The logging configuration file, if present.
    pub fn log_toml(&self) -> (r: Option<String>)
        ensures
            match r {
                Some(p) => exists|i: int|
                    0 <= i < self.paths().len() && p@ == join_path(
                        #[trigger] self.paths()[i],
                        "log4rs.toml"@,
                    ),
                None => true,
            },
    {
        self.file("log4rs.toml")
    }

    /// The settings file, if present.
    pub fn settings_json(&self) -> (r: Option<String>)
        ensures
            match r {
                Some(p) => exists|i: int|
                    0 <= i < self.paths().len() && p@ == join_path(
                        #[trigger] self.paths()[i],
                        "settings.json"@,
                    ),
                None => true,
            },
    {
        self.file("settings.json")
    }

    /// The repository data file, always under the first configuration
    /// directory.
    pub fn data_json(&self) -> (r: String)
        requires
            self.paths().len() > 0,
        ensures
            r@ == join_path(self.paths()[0], "data.json"@),
    {
        let r = self.config_paths[0].clone().concat("/").concat("data.json");
        proof {
            assert(r@ == join_path(self.paths()[0], "data.json"@));
        }
        r
    }
}

} // verus!
