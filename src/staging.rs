//! What staging writes into the build descriptor, and how the plugin
//! artifact itself is obtained.

use vstd::prelude::*;

use crate::schema::{Mod, VersionSource};
use crate::text::{decimal, int_text};
use vstd::string::StringExecFns;

verus! {

/// Repository declarations for the three artifact hosts, up to the
/// declaration of the plugin artifact.
pub const GRADLE_REPOSITORIES: &'static str = "\nrepositories {\n    // Modrinth maven\n    exclusiveContent {\n        forRepository {\n            maven { url = \"https://api.modrinth.com/maven\" }\n        }\n        filter {\n            includeGroup \"maven.modrinth\"\n        }\n    }\n    // jitpack for GitHub\n    maven { url = \"https://jitpack.io\" }\n    // CurseForge maven\n    exclusiveContent {\n        forRepository {\n            maven { url = \"https://cursemaven.com\" }\n        }\n        filter {\n            includeGroup \"curse.maven\"\n        }\n    }\n}\n\ndependencies {\n    modImplementation ";

/// One declaration line per extra dependency.
pub open spec fn extra_dependencies(deps: Seq<Seq<char>>) -> Seq<char>
    decreases deps.len(),
{
    if deps.len() == 0 {
        Seq::empty()
    } else {
        extra_dependencies(deps.drop_last()) + "\n    modImplementation '"@ + deps.last() + "'"@
    }
}

/// Text appended to the build descriptor.
pub open spec fn gradle_block(main_dep: Seq<char>, deps: Seq<Seq<char>>) -> Seq<char> {
    GRADLE_REPOSITORIES@ + main_dep + extra_dependencies(deps) + "\n}\n"@
}

/// The text to append to the build descriptor: repositories, the plugin
/// artifact, then every other dependency in order.
pub fn dependency_block(main_dep: &str, deps: &Vec<String>) -> (r: String)
    ensures
        r@ == gradle_block(main_dep@, deps.deep_view()),
{
    let mut extra = String::new();
    let mut i: usize = 0;
    while i < deps.len()
        invariant
            i <= deps.len(),
            extra@ == extra_dependencies(deps.deep_view().subrange(0, i as int)),
        decreases deps.len() - i,
    {
        proof {
            assert(deps.deep_view().subrange(0, i + 1).drop_last() =~= deps.deep_view().subrange(0, i as int));
        }
        extra.append("\n    modImplementation '");
        extra.append(deps[i].as_str());
        extra.append("'");
        proof {
            assert(extra@ =~= extra_dependencies(deps.deep_view().subrange(0, i as int)) + "\n    modImplementation '"@ + deps.deep_view()[i as int] + "'"@);
        }
        i = i + 1;
    }
    assert(deps.deep_view().subrange(0, deps.len() as int) =~= deps.deep_view());
    let mut r = GRADLE_REPOSITORIES.to_owned();
    r.append(main_dep);
    r.append(extra.as_str());
    r.append("\n}\n");
    r
}

/// How the plugin artifact enters the build.
#[derive(Clone, Debug)]
pub enum MainDependency {
    /// A remote coordinate, quoted as the build descriptor wants it.
    Coordinate(String),
    /// A file fetched from this URL into the local library directory.
    Download(String),
}

/// The notation of a fetched artifact in the build descriptor.
pub open spec fn local_jar() -> Seq<char> {
    "files('libs/mod.jar')"@
}

/// The path, under the staged project, where a fetched artifact is stored.
pub open spec fn local_jar_path() -> Seq<char> {
    "libs/mod.jar"@
}

pub fn local_jar_file() -> (r: &'static str)
    ensures
        r@ == local_jar_path(),
{
    "libs/mod.jar"
}

pub open spec fn main_dependency_for(m: Mod, source: VersionSource) -> (bool, Seq<char>) {
    match source {
        VersionSource::Modrinth { version, filename } => match filename {
            None => (false, "'maven.modrinth:"@ + m.slug@ + ":"@ + version@ + "'"@),
            Some(f) => (
                true,
                "https://api.modrinth.com/maven/maven/modrinth/"@ + m.slug@ + "/"@ + version@ + "/"@
                    + f@,
            ),
        },
        VersionSource::CurseForge { file_id } => (
            false,
            "'curse.maven:"@ + m.slug@ + "-"@ + int_text(m.project_id as int) + ":"@ + int_text(
                file_id as int,
            ) + "'"@,
        ),
        VersionSource::GitHub { tag, asset } => (
            true,
            "https://github.com/"@ + m.repo@ + "/releases/download/"@ + tag@ + "/"@ + asset@,
        ),
    }
}

/// How the plugin artifact of a version is obtained: a Modrinth version
/// without an explicit file name and a CurseForge file are remote
/// coordinates; a Modrinth file named explicitly and a GitHub release asset
/// are fetched directly.
pub fn main_dependency(m: &Mod, source: &VersionSource) -> (r: MainDependency)
    ensures
        main_dependency_for(*m, *source).0 <==> r is Download,
        r matches MainDependency::Download(u) ==> u@ == main_dependency_for(*m, *source).1,
        r matches MainDependency::Coordinate(c) ==> c@ == main_dependency_for(*m, *source).1,
{
    match source {
        VersionSource::Modrinth { version, filename } => match filename {
            None => {
                let mut c = "'maven.modrinth:".to_owned();
                c.append(m.slug.as_str());
                c.append(":");
                c.append(version.as_str());
                c.append("'");
                MainDependency::Coordinate(c)
            },
            Some(f) => {
                let mut u = "https://api.modrinth.com/maven/maven/modrinth/".to_owned();
                u.append(m.slug.as_str());
                u.append("/");
                u.append(version.as_str());
                u.append("/");
                u.append(f.as_str());
                MainDependency::Download(u)
            },
        },
        VersionSource::CurseForge { file_id } => {
            let mut c = "'curse.maven:".to_owned();
            c.append(m.slug.as_str());
            c.append("-");
            let project = decimal(m.project_id);
            c.append(project.as_str());
            c.append(":");
            let file = decimal(*file_id);
            c.append(file.as_str());
            c.append("'");
            MainDependency::Coordinate(c)
        },
        VersionSource::GitHub { tag, asset } => {
            let mut u = "https://github.com/".to_owned();
            u.append(m.repo.as_str());
            u.append("/releases/download/");
            u.append(tag.as_str());
            u.append("/");
            u.append(asset.as_str());
            MainDependency::Download(u)
        },
    }
}

/// How the build descriptor names the plugin artifact.
pub fn dependency_notation(d: &MainDependency) -> (r: String)
    ensures
        d matches MainDependency::Coordinate(c) ==> r@ == c@,
        d is Download ==> r@ == local_jar(),
{
    match d {
        MainDependency::Coordinate(c) => c.clone(),
        MainDependency::Download(_) => "files('libs/mod.jar')".to_owned(),
    }
}

/// Whether an HTTP status reports success (the 2xx class); any other status
/// of an artifact fetch is fatal.
pub fn download_succeeded(status: u16) -> (r: bool)
    ensures
        r == (200 <= status <= 299),
{
    200 <= status && status <= 299
}

} // verus!
