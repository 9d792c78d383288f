//! The caller-supplied configuration: the command surface's data, and the
//! derivation of library options from it. Argument parsing and file I/O
//! stay in the surrounding command layer; the defaulting and naming rules
//! live here.

use vstd::prelude::*;
use crate::casing::{lower_of, pascal_of, to_lower, to_pascal};

verus! {

/// The target output language of a generation run.
#[derive(Clone, Copy, Debug, PartialEq, Eq, Structural)]
pub enum Language {
    Rust,
    Python,
    Typescript,
    Golang,
}

/// Backend-specific feature toggles.
#[derive(Clone, Copy, Debug, PartialEq, Eq, Structural)]
pub struct LibraryConfig {
    /// Only used by Rust: adds ORM persistence metadata to emitted records.
    pub ormlite: bool,
}

/// A backend feature flag selectable on the command line.
#[derive(Clone, Copy, Debug, PartialEq, Eq, Structural)]
pub enum Config {
    /// Only used by Rust. Adds ORM table metadata to the code.
    Ormlite,
}

/// The library options the extraction pipeline consumes.
#[derive(Clone, Debug, PartialEq, Eq)]
pub struct LibraryOptions {
    pub package_name: String,
    /// The service display name; prefixes derived environment variables.
    pub service_name: String,
    pub package_version: String,
    pub build_examples: bool,
    pub language: Language,
    pub config: LibraryConfig,
}

/// Where and how generated output is written.
#[derive(Clone, Debug, PartialEq, Eq)]
pub struct OutputOptions {
    pub library_options: LibraryOptions,
    /// The qualified repository name, e.g. an owner/name pair.
    pub qualified_github_repo: String,
    pub dest_path: String,
}

/// The generate command's arguments.
#[derive(Clone, Debug, PartialEq, Eq)]
pub struct Generate {
    /// Service name.
    pub name: String,
    pub language: Language,
    /// Path to the OpenAPI spec file.
    pub spec_filepath: String,
    pub github_repo: String,
    pub output_dir: String,
    /// Toggle if examples are also generated.
    pub gen_examples: Option<bool>,
    /// Package name. Defaults to the service name.
    pub package_name: Option<String>,
    /// The version of the library. Defaults to 0.1.0.
    pub version: Option<String>,
    pub config: Vec<Config>,
}

/// Whether a flag list switches the ORM metadata on.
pub open spec fn spec_ormlite(configs: Seq<Config>) -> bool {
    exists|i: int| 0 <= i < configs.len() && configs[i] == Config::Ormlite
}

/// Folds the command-line flags into a library configuration.
pub fn build_config(configs: &Vec<Config>) -> (c: LibraryConfig)
    ensures
        c.ormlite == spec_ormlite(configs@),
{
    let mut config = LibraryConfig { ormlite: false };
    let n = configs.len();
    let mut i: usize = 0;
    while i < n
        invariant
            n == configs@.len(),
            i <= n,
            config.ormlite == spec_ormlite(configs@.take(i as int)),
        decreases n - i,
    {
        proof {
            assert(configs@.take(i + 1) =~= configs@.take(i as int).push(configs@[i as int]));
        }
        match configs[i] {
            Config::Ormlite => {
                config.ormlite = true;
            },
        }
        proof {
            if config.ormlite {
                assert(spec_ormlite(configs@.take(i + 1))) by {
                    if spec_ormlite(configs@.take(i as int)) {
                        let k = choose|k: int|
                            0 <= k < i && configs@.take(i as int)[k] == Config::Ormlite;
                        assert(configs@.take(i + 1)[k] == Config::Ormlite);
                    } else {
                        assert(configs@.take(i + 1)[i as int] == Config::Ormlite);
                    }
                };
            }
        }
        i += 1;
    }
    proof {
        assert(configs@.take(n as int) =~= configs@);
    }
    config
}

impl Generate {
    /// The output options this command denotes: the package name defaults
    /// to the lowercased service name, the version to 0.1.0, example
    /// generation to off, and the service display name is Pascal-cased.
    pub fn build_options(&self) -> (out: OutputOptions)
        ensures
            out.library_options.package_name@ == (match self.package_name {
                Some(p) => p@,
                None => lower_of(self.name@),
            }),
            out.library_options.service_name@ == pascal_of(self.name@),
            out.library_options.package_version@ == (match self.version {
                Some(v) => v@,
                None => "0.1.0"@,
            }),
            out.library_options.build_examples == (match self.gen_examples {
                Some(g) => g,
                None => false,
            }),
            out.library_options.language == self.language,
            out.library_options.config.ormlite == spec_ormlite(self.config@),
            out.qualified_github_repo@ == self.github_repo@,
            out.dest_path@ == self.output_dir@,
    {
        let package_name = match &self.package_name {
            Some(p) => p.clone(),
            None => to_lower(self.name.as_str()),
        };
        let version = match &self.version {
            Some(v) => v.clone(),
            None => String::from_str("0.1.0"),
        };
        let toggle_examples = match self.gen_examples {
            Some(g) => g,
            None => false,
        };
        OutputOptions {
            library_options: LibraryOptions {
                package_name,
                service_name: to_pascal(self.name.as_str()),
                package_version: version,
                build_examples: toggle_examples,
                language: self.language,
                config: build_config(&self.config),
            },
            qualified_github_repo: self.github_repo.clone(),
            dest_path: self.output_dir.clone(),
        }
    }
}

} // verus!
