//! Where an installation keeps its versions, by platform.

use crate::error::{EnvError, MinecraftError, MinecraftResult};
use vstd::prelude::*;
use vstd::string::StringExecFns;

verus! {

/// The platforms on which an installation is looked for.
#[derive(Clone, Copy, Debug, PartialEq, Eq, Structural)]
pub enum Platform {
    Windows,
    Linux,
    MacOs,
}

/// A path, given by the steps that build it: the text it starts from, and
/// the components that are joined to it, one after the other.
#[derive(Debug)]
pub struct LocalPath {
    pub base: String,
    pub segments: Vec<String>,
}

/// A path, as the characters of its start and of each component.
pub struct PathView {
    pub base: Seq<char>,
    pub segments: Seq<Seq<char>>,
}

/// The components, each by its characters.
pub open spec fn segments_view(segments: Seq<String>) -> Seq<Seq<char>> {
    segments.map_values(|segment: String| segment@)
}

impl View for LocalPath {
    type V = PathView;

    open spec fn view(&self) -> PathView {
        PathView { base: self.base@, segments: segments_view(self.segments@) }
    }
}

impl Platform {
    /// The name of the variable that holds the directory under which the
    /// platform keeps the installation.
    pub open spec fn variable(self) -> Seq<char> {
        match self {
            Platform::Windows => "APPDATA"@,
            Platform::Linux => "HOME"@,
            Platform::MacOs => "HOME"@,
        }
    }

    /// The components that lead from that directory to the installation.
    pub open spec fn root_suffix(self) -> Seq<Seq<char>> {
        match self {
            Platform::Windows => seq![".minecraft"@],
            Platform::Linux => seq![".minecraft"@],
            Platform::MacOs => seq!["Library"@, "Application Support"@, "cminecraft"@],
        }
    }

    /// The name of the environment variable to look up for this platform.
    pub fn env_variable(self) -> (name: &'static str)
        ensures
            name@ == self.variable(),
    {
        match self {
            Platform::Windows => "APPDATA",
            Platform::Linux => "HOME",
            Platform::MacOs => "HOME",
        }
    }
}

/// Joins one more component to a path.
fn join(path: LocalPath, segment: String) -> (joined: LocalPath)
    ensures
        joined@.base == path@.base,
        joined@.segments == path@.segments.push(segment@),
{
    let LocalPath { base, segments } = path;
    let mut segments = segments;
    let ghost before = segments@;
    segments.push(segment);
    assert(segments_view(segments@) =~= segments_view(before).push(segment@));
    LocalPath { base, segments }
}

/// The installation root of `platform`, from what looking up its variable
/// came to: the variable's value with the platform's components joined to
/// it, or the failure of the lookup.
pub fn vanilla_root_path(platform: Platform, lookup: Result<String, EnvError>) -> (res:
    MinecraftResult<LocalPath>)
    ensures
        match lookup {
            Ok(value) => res matches Ok(root) && root@ == (PathView {
                base: value@,
                segments: platform.root_suffix(),
            }),
            Err(cause) => res matches Err(MinecraftError::Env(given)) && given == cause,
        },
{
    match lookup {
        Err(cause) => Err(MinecraftError::Env(cause)),
        Ok(value) => {
            let root = LocalPath { base: value, segments: Vec::new() };
            assert(root@.segments =~= Seq::empty());
            let root = match platform {
                Platform::Windows => join(root, ".minecraft".to_owned()),
                Platform::Linux => join(root, ".minecraft".to_owned()),
                Platform::MacOs => {
                    let library = join(root, "Library".to_owned());
                    let support = join(library, "Application Support".to_owned());
                    join(support, "cminecraft".to_owned())
                },
            };
            assert(root@.segments =~= platform.root_suffix());
            Ok(root)
        },
    }
}

/// The components that lead from the installation root to the archive of a
/// version.
pub open spec fn archive_suffix(version: Seq<char>) -> Seq<Seq<char>> {
    seq!["versions"@, version, version + ".jar"@]
}

/// The archive of `version` under the installation root:
/// `versions/<version>/<version>.jar`. The version is taken as it is.
pub fn version_archive_path(root: LocalPath, version: &str) -> (path: LocalPath)
    ensures
        path@.base == root@.base,
        path@.segments == root@.segments + archive_suffix(version@),
{
    let versions = join(root, "versions".to_owned());
    let directory = join(versions, version.to_owned());
    let file = version.to_owned().concat(".jar");
    let path = join(directory, file);
    assert(path@.segments =~= root@.segments + archive_suffix(version@));
    path
}

} // verus!
