//! The data model: configuration, environments, directory entries, and the two
//! capability traits that the retrieval engine is built from.

use vstd::prelude::*;
use crate::text::{chars_of, same_text};

verus! {

/// Every fallible operation reports its failure as a descriptive message.
pub type LogResult<T> = Result<T, String>;

/// Settings of one environment.
#[derive(Clone, Debug, PartialEq, Eq)]
pub struct Configs {
    /// Root of the remote hierarchy.
    pub base_path: String,
    /// Identity used to authenticate against the backend.
    pub profile: String,
    /// Local directory under which downloads are written.
    pub output_path: String,
}

/// One `Configs` per environment.
#[derive(Clone, Debug, PartialEq, Eq)]
pub struct ConfigsCollection {
    pub dev: Configs,
    pub stage: Configs,
    pub prod: Configs,
}

/// The environments that logs are kept for.
#[derive(Hash, Eq, PartialEq, Structural, Clone, Debug)]
pub enum Environment {
    Prod,
    Stage,
    Dev,
}

/// `text` in lower case, as Unicode defines it.
pub uninterp spec fn lowercase_of(text: Seq<char>) -> Seq<char>;

/// `str::to_lowercase` gives the lower-case equivalent of a text; the contract
/// claims only that it is a function of the text.
pub assume_specification[ str::to_lowercase ](s: &str) -> (r: String)
    ensures
        r@ == lowercase_of(s@),
;

/// The environment that goes by the lower-case name `name`.
pub open spec fn environment_named(name: Seq<char>) -> Option<Environment> {
    if name == "production"@ || name == "prod"@ || name == "p"@ {
        Some(Environment::Prod)
    } else if name == "stage"@ || name == "s"@ {
        Some(Environment::Stage)
    } else if name == "development"@ || name == "dev"@ || name == "d"@ {
        Some(Environment::Dev)
    } else {
        None
    }
}

impl Environment {
    /// The environment that goes by `name`, which is taken as it is written:
    /// only lower-case names are known.
    pub fn from_name(name: &str) -> (r: Option<Environment>)
        ensures
            r == environment_named(name@),
    {
        let name = chars_of(name);
        let name = name.as_slice();
        if same_text(name, "production") || same_text(name, "prod") || same_text(name, "p") {
            Some(Environment::Prod)
        } else if same_text(name, "stage") || same_text(name, "s") {
            Some(Environment::Stage)
        } else if same_text(name, "development") || same_text(name, "dev") || same_text(
            name,
            "d",
        ) {
            Some(Environment::Dev)
        } else {
            None
        }
    }
}

impl std::str::FromStr for Environment {
    type Err = String;

    /// Reads an environment from one of its names, in any mix of upper and
    /// lower case.
    fn from_str(s: &str) -> (r: Result<Environment, String>)
        ensures
            match environment_named(lowercase_of(s@)) {
                Some(environment) => r == Ok::<Environment, String>(environment),
                None => r matches Err(message) && message@ == "Unknown environment!"@,
            },
    {
        let lower = s.to_lowercase();
        match Environment::from_name(lower.as_str()) {
            Some(environment) => Ok(environment),
            None => Err("Unknown environment!".to_owned()),
        }
    }
}

impl Configs {
    /// These settings with downloads sent to `output`, if one is given.
    pub fn with_output(self, output: Option<String>) -> (r: Configs)
        ensures
            r.base_path == self.base_path,
            r.profile == self.profile,
            r.output_path == match output {
                Some(path) => path,
                None => self.output_path,
            },
    {
        match output {
            Some(path) => Configs {
                base_path: self.base_path,
                profile: self.profile,
                output_path: path,
            },
            None => self,
        }
    }
}

impl ConfigsCollection {
    /// The settings that belong to `env`.
    pub open spec fn selected(&self, env: Environment) -> Configs {
        match env {
            Environment::Prod => self.prod,
            Environment::Stage => self.stage,
            Environment::Dev => self.dev,
        }
    }

    /// The settings that belong to `env`.
    pub fn get_config(&self, env: &Environment) -> (r: &Configs)
        ensures
            *r == self.selected(*env),
    {
        match *env {
            Environment::Prod => &self.prod,
            Environment::Stage => &self.stage,
            Environment::Dev => &self.dev,
        }
    }
}

/// A moment in UTC: whole seconds since 1970-01-01 00:00:00, and the
/// nanoseconds into that second. A leap second is the last second of its
/// minute with `nanos` of at least 1_000_000_000.
#[derive(Clone, Copy, Debug, PartialEq, Eq, Structural)]
pub struct Timestamp {
    pub secs: i64,
    pub nanos: u32,
}

/// A stored object.
#[derive(Clone, Debug, PartialEq, Eq)]
pub struct File {
    pub name: String,
    pub size: u64,
    pub date: Timestamp,
}

/// A folder-like common prefix.
#[derive(Clone, Debug, PartialEq, Eq)]
pub struct Prefix {
    pub name: String,
}

/// One entry of a directory listing.
#[derive(Clone, Debug, PartialEq, Eq)]
pub enum FileIndex {
    File(File),
    Prefix(Prefix),
}

/// What a `FileIndex` stands for: the same entry with its name as a sequence
/// of characters.
pub enum DirectoryEntry {
    File { name: Seq<char>, size: u64, date: Timestamp },
    Prefix { name: Seq<char> },
}

impl View for FileIndex {
    type V = DirectoryEntry;

    open spec fn view(&self) -> DirectoryEntry {
        match *self {
            FileIndex::File(f) => DirectoryEntry::File { name: f.name@, size: f.size, date: f.date },
            FileIndex::Prefix(p) => DirectoryEntry::Prefix { name: p.name@ },
        }
    }
}

/// The entries that a vector of `FileIndex` stands for.
pub open spec fn entries_of(v: Seq<FileIndex>) -> Seq<DirectoryEntry> {
    v.map_values(|e: FileIndex| e@)
}

/// The outcome of a listing, over the entries' views.
pub open spec fn listing_of(r: LogResult<Vec<FileIndex>>) -> Result<Seq<DirectoryEntry>, Seq<char>> {
    match r {
        Ok(v) => Ok(entries_of(v@)),
        Err(e) => Err(e@),
    }
}

/// The outcome of a download, over the message's view.
pub open spec fn transfer_of(r: LogResult<()>) -> Result<(), Seq<char>> {
    match r {
        Ok(()) => Ok(()),
        Err(e) => Err(e@),
    }
}

/// The two primitive operations on the remote store.
///
/// A backend says through `lists` and `downloads` which outcomes its calls can
/// have; the engine's contracts are stated over these two relations. Nothing
/// is assumed of them: a call may fail or succeed on any input, and two calls
/// on the same input may differ.
pub trait LogOperations: Sized {
    /// Whether `ls` on `path` can come back with `outcome`.
    open spec fn lists(
        &self,
        path: Seq<char>,
        outcome: Result<Seq<DirectoryEntry>, Seq<char>>,
    ) -> bool {
        true
    }

    /// Whether `download` of `path` to `to` can come back with `outcome`.
    open spec fn downloads(&self, path: Seq<char>, to: Seq<char>, outcome: Result<(), Seq<char>>) -> bool {
        true
    }

    /// Whether `new` can build this backend from `configs`.
    open spec fn built_from(&self, configs: Configs) -> bool {
        true
    }

    fn ls(&self, path: &str) -> (r: LogResult<Vec<FileIndex>>)
        ensures
            self.lists(path@, listing_of(r)),
    ;

    fn download(&self, path: &str, to: &str) -> (r: LogResult<()>)
        ensures
            self.downloads(path@, to@, transfer_of(r)),
    ;

    fn new(configs: Configs) -> (r: Self)
        ensures
            r.built_from(configs),
    ;
}

/// The retrieval engine: what a caller can ask about one device.
pub trait LogGetter: Sized {
    fn list_folders(&self, device: &String) -> LogResult<Vec<String>>;

    fn download_folder(&self, device: &String, folder: &String) -> LogResult<String>;

    fn new(configs: Configs) -> Self;
}

} // verus!
