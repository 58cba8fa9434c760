//! Decisions of the native build: which files make cargo rerun the build
//! (the `cargo::rerun-if-changed=` directives), and which MSVC target and
//! configuration a Windows build uses.

use vstd::prelude::*;
use vstd::string::*;

verus! {

/// The platform family the build runs for.
#[derive(PartialEq, Eq, Structural, Clone, Copy, Debug)]
pub enum Platform {
    Unix,
    Windows,
    /// Neither Unix nor Windows: no project files are watched.
    Other,
}

/// The directive that makes cargo rerun the build when `path` changes.
pub open spec fn directive(path: Seq<char>) -> Seq<char> {
    "cargo::rerun-if-changed="@ + path
}

/// The paths, relative to the package, watched on every platform, plus the
/// Visual Studio solution on Windows, in the order they are announced.
pub open spec fn fixed_watch_paths_of(platform: Platform) -> Seq<Seq<char>> {
    match platform {
        Platform::Windows => seq!["build/"@, "m64prs-build-all.py"@, "m64prs-vs-deps.sln"@],
        _ => seq!["build/"@, "m64prs-build-all.py"@],
    }
}

/// The project files of the emulator core that are watched, as
/// (directory relative to the core, file name) pairs.
pub open spec fn core_project_files_of(platform: Platform) -> Seq<(Seq<char>, Seq<char>)> {
    match platform {
        Platform::Unix => seq![("projects/unix"@, "Makefile"@)],
        Platform::Windows => seq![
            ("projects/msvc"@, "mupen64plus-core.vcxproj"@),
            ("projects/msvc"@, "mupen64plus-core.vcxproj.filters"@),
        ],
        Platform::Other => seq![],
    }
}

/// A file found under the core's sources is watched unless one of its
/// path components is `asm_defines` (generated files).
pub open spec fn is_watched_source(is_file: bool, components: Seq<Seq<char>>) -> bool {
    is_file && !components.contains("asm_defines"@)
}

/// The MSVC developer-environment architecture and MSBuild platform for a
/// cargo target architecture; none for an unsupported one.
pub open spec fn msvc_target_of(arch: Seq<char>) -> Option<(Seq<char>, Seq<char>)> {
    if arch == "x86"@ {
        Some(("x86"@, "Win32"@))
    } else if arch == "x86_64"@ {
        Some(("amd64"@, "x64"@))
    } else {
        None
    }
}

/// The MSBuild configuration for a cargo profile; none for another profile.
pub open spec fn msbuild_configuration_of(profile: Seq<char>) -> Option<Seq<char>> {
    if profile == "debug"@ {
        Some("Debug"@)
    } else if profile == "release"@ {
        Some("Release"@)
    } else {
        None
    }
}

/// The directive for one path.
pub fn rerun_directive(path: &str) -> (line: String)
    ensures
        line@ == directive(path@),
{
    let mut line = String::from_str("cargo::rerun-if-changed=");
    line.append(path);
    line
}

/// The always-watched paths of `platform`, in order.
pub fn fixed_watch_paths(platform: Platform) -> (paths: Vec<String>)
    ensures
        paths@.map_values(|p: String| p@) == fixed_watch_paths_of(platform),
{
    let mut paths: Vec<String> = Vec::new();
    paths.push(String::from_str("build/"));
    paths.push(String::from_str("m64prs-build-all.py"));
    if platform == Platform::Windows {
        paths.push(String::from_str("m64prs-vs-deps.sln"));
    }
    assert(paths@.map_values(|p: String| p@) =~= fixed_watch_paths_of(platform));
    paths
}

/// The watched project files of the core on `platform`, in order.
pub fn core_project_files(platform: Platform) -> (files: Vec<(String, String)>)
    ensures
        files@.map_values(|f: (String, String)| (f.0@, f.1@)) == core_project_files_of(platform),
{
    let mut files: Vec<(String, String)> = Vec::new();
    match platform {
        Platform::Unix => {
            files.push((String::from_str("projects/unix"), String::from_str("Makefile")));
        },
        Platform::Other => {},
        Platform::Windows => {
            files.push(
                (String::from_str("projects/msvc"), String::from_str("mupen64plus-core.vcxproj")),
            );
            files.push(
                (
                    String::from_str("projects/msvc"),
                    String::from_str("mupen64plus-core.vcxproj.filters"),
                ),
            );
        },
    }
    assert(files@.map_values(|f: (String, String)| (f.0@, f.1@)) =~= core_project_files_of(
        platform,
    ));
    files
}

/// Whether a source entry is watched.
pub fn watches_source(is_file: bool, components: &Vec<String>) -> (b: bool)
    ensures
        b == is_watched_source(is_file, components@.map_values(|c: String| c@)),
        b == (is_file && forall|j: int|
            0 <= j < components@.len() ==> #[trigger] components@[j]@ != "asm_defines"@),
{
    let ghost views = components@.map_values(|c: String| c@);
    if !is_file {
        return false;
    }
    let excluded = String::from_str("asm_defines");
    let mut i: usize = 0;
    while i < components.len()
        invariant
            i <= components@.len(),
            excluded@ == "asm_defines"@,
            views == components@.map_values(|c: String| c@),
            forall|j: int| 0 <= j < i ==> views[j] != "asm_defines"@,
        decreases components@.len() - i,
    {
        if components[i] == excluded {
            assert(views[i as int] == "asm_defines"@);
            return false;
        }
        i = i + 1;
    }
    assert(!views.contains("asm_defines"@));
    assert forall|j: int| 0 <= j < components@.len() implies #[trigger] components@[j]@
        != "asm_defines"@ by {
        assert(views[j] == components@[j]@);
    }
    true
}

/// The directive for a source entry found under the core's sources, if it
/// is watched.
pub fn source_directive(path: &str, is_file: bool, components: &Vec<String>) -> (line: Option<
    String,
>)
    ensures
        match line {
            Some(l) => is_watched_source(is_file, components@.map_values(|c: String| c@))
                && l@ == directive(path@),
            None => !is_watched_source(is_file, components@.map_values(|c: String| c@)),
        },
{
    if watches_source(is_file, components) {
        Some(rerun_directive(path))
    } else {
        None
    }
}

/// Whether the build supports the cargo target architecture `arch`.
pub fn supports_msvc_arch(arch: &String) -> (b: bool)
    ensures
        b == msvc_target_of(arch@) is Some,
{
    *arch == String::from_str("x86") || *arch == String::from_str("x86_64")
}

/// The MSVC target for a supported cargo target architecture.
pub fn msvc_target(arch: &String) -> (target: (String, String))
    requires
        msvc_target_of(arch@) is Some,
    ensures
        msvc_target_of(arch@) == Some((target.0@, target.1@)),
{
    if *arch == String::from_str("x86") {
        (String::from_str("x86"), String::from_str("Win32"))
    } else {
        (String::from_str("amd64"), String::from_str("x64"))
    }
}

/// Whether `profile` is a cargo profile the build knows.
pub fn knows_profile(profile: &String) -> (b: bool)
    ensures
        b == msbuild_configuration_of(profile@) is Some,
{
    *profile == String::from_str("debug") || *profile == String::from_str("release")
}

/// The MSBuild configuration for a known cargo profile.
pub fn msbuild_configuration(profile: &String) -> (config: String)
    requires
        msbuild_configuration_of(profile@) is Some,
    ensures
        msbuild_configuration_of(profile@) == Some(config@),
{
    if *profile == String::from_str("debug") {
        String::from_str("Debug")
    } else {
        String::from_str("Release")
    }
}

/// A file or directory met while walking the core's sources.
pub struct SourceEntry {
    /// The path as it is shown.
    pub path: String,
    /// Whether the entry is a file.
    pub is_file: bool,
    /// The path's components.
    pub components: Vec<String>,
}

/// Whether a source entry is watched.
pub open spec fn entry_watched(e: SourceEntry) -> bool {
    is_watched_source(e.is_file, e.components@.map_values(|c: String| c@))
}

/// The directives for the watched ones among `entries`, in walk order.
pub open spec fn source_directives_of(entries: Seq<SourceEntry>) -> Seq<Seq<char>>
    decreases entries.len(),
{
    if entries.len() == 0 {
        seq![]
    } else {
        source_directives_of(entries.drop_last()) + if entry_watched(entries.last()) {
            seq![directive(entries.last().path@)]
        } else {
            Seq::<Seq<char>>::empty()
        }
    }
}

/// All rerun directives of the build, in the order they are announced: the
/// always-watched paths of `platform`, then the watched entries of the walk
/// over the core's sources, then the core's project files (`project_paths`,
/// the pairs of `core_project_files` joined onto the core's directory).
pub open spec fn rerun_lines_of(
    platform: Platform,
    entries: Seq<SourceEntry>,
    project_paths: Seq<Seq<char>>,
) -> Seq<Seq<char>> {
    fixed_watch_paths_of(platform).map_values(|p: Seq<char>| directive(p)) + source_directives_of(
        entries,
    ) + project_paths.map_values(|p: Seq<char>| directive(p))
}

/// All rerun directives of the build, in order.
pub fn rerun_lines(platform: Platform, entries: &Vec<SourceEntry>, project_paths: &Vec<String>) -> (lines: Vec<String>)
    ensures
        lines@.map_values(|l: String| l@) == rerun_lines_of(
            platform,
            entries@,
            project_paths@.map_values(|p: String| p@),
        ),
        lines@.len() == fixed_watch_paths_of(platform).len() + source_directives_of(entries@).len()
            + project_paths@.len(),
        lines@.len() >= project_paths@.len() + 2,
        lines@[0]@ == "cargo::rerun-if-changed="@ + "build/"@,
        lines@[1]@ == "cargo::rerun-if-changed="@ + "m64prs-build-all.py"@,
        platform == Platform::Windows ==> lines@[2]@ == "cargo::rerun-if-changed="@
            + "m64prs-vs-deps.sln"@,
        forall|i: int|
            0 <= i < project_paths@.len() ==> #[trigger] lines@[lines@.len() - project_paths@.len()
                + i]@ == "cargo::rerun-if-changed="@ + project_paths@[i]@,
{

    let mut lines: Vec<String> = Vec::new();
    let fixed = fixed_watch_paths(platform);
    let ghost fixed_part = fixed_watch_paths_of(platform).map_values(|p: Seq<char>| directive(p));
    let mut i: usize = 0;
    while i < fixed.len()
        invariant
            i <= fixed@.len(),
            fixed@.map_values(|p: String| p@) == fixed_watch_paths_of(platform),
            fixed_part == fixed_watch_paths_of(platform).map_values(|p: Seq<char>| directive(p)),
            lines@.map_values(|l: String| l@) == fixed_part.take(i as int),
        decreases fixed@.len() - i,
    {
        lines.push(rerun_directive(fixed[i].as_str()));
        proof {
            assert(fixed@.map_values(|p: String| p@)[i as int] == fixed@[i as int]@);
            assert(fixed_part.take(i + 1) =~= fixed_part.take(i as int).push(fixed_part[i as int]));
            assert(lines@.map_values(|l: String| l@) =~= fixed_part.take(i as int).push(
                fixed_part[i as int],
            ));
        }
        i = i + 1;
    }
    assert(fixed_part.take(i as int) =~= fixed_part);
    let mut k: usize = 0;
    while k < entries.len()
        invariant
            k <= entries@.len(),
            lines@.map_values(|l: String| l@) == fixed_part + source_directives_of(
                entries@.take(k as int),
            ),
        decreases entries@.len() - k,
    {
        let entry = &entries[k];
        let line = source_directive(entry.path.as_str(), entry.is_file, &entry.components);
        proof {
            assert(entries@.take(k + 1).drop_last() =~= entries@.take(k as int));
            assert(entries@.take(k + 1).last() == entries@[k as int]);
        }
        match line {
            Some(l) => {
                let ghost before = lines@.map_values(|l: String| l@);
                proof {
                    assert(entry_watched(entries@[k as int]));
                    assert(source_directives_of(entries@.take(k + 1)) == source_directives_of(
                        entries@.take(k as int),
                    ) + seq![directive(entries@[k as int].path@)]);
                }
                lines.push(l);
                proof {
                    assert(lines@.map_values(|l: String| l@) =~= before.push(l@));
                    assert(lines@.map_values(|l: String| l@) =~= fixed_part + source_directives_of(
                        entries@.take(k + 1),
                    ));
                }
            },
            None => {
                proof {
                    assert(!entry_watched(entries@[k as int]));
                    assert(source_directives_of(entries@.take(k + 1)) =~= source_directives_of(
                        entries@.take(k as int),
                    ));
                }
            },
        }
        k = k + 1;
    }
    assert(entries@.take(k as int) =~= entries@);
    let ghost project_part = project_paths@.map_values(|p: String| directive(p@));
    let mut m: usize = 0;
    while m < project_paths.len()
        invariant
            m <= project_paths@.len(),
            project_part == project_paths@.map_values(|p: String| directive(p@)),
            lines@.map_values(|l: String| l@) == fixed_part + source_directives_of(entries@)
                + project_part.take(m as int),
        decreases project_paths@.len() - m,
    {
        let ghost before = lines@.map_values(|l: String| l@);
        let line = rerun_directive(project_paths[m].as_str());
        lines.push(line);
        proof {
            assert(lines@.map_values(|l: String| l@) =~= before.push(line@));
            assert(project_part[m as int] == line@);
            assert(project_part.take(m + 1) =~= project_part.take(m as int).push(
                project_part[m as int],
            ));
            assert(lines@.map_values(|l: String| l@) =~= fixed_part + source_directives_of(entries@)
                + project_part.take(m + 1));
        }
        m = m + 1;
    }
    assert(project_part.take(m as int) =~= project_part);
    assert(project_part =~= project_paths@.map_values(|p: String| p@).map_values(
        |p: Seq<char>| directive(p),
    ));
    proof {
        rerun_lines_announce_everything(
            platform,
            entries@,
            project_paths@.map_values(|p: String| p@),
        );
        let all = lines@.map_values(|l: String| l@);
        assert forall|i: int| 0 <= i < project_paths@.len() implies #[trigger] lines@[lines@.len()
            - project_paths@.len() + i]@ == "cargo::rerun-if-changed="@ + project_paths@[i]@ by {
            assert(all[lines@.len() - project_paths@.len() + i] == lines@[lines@.len()
                - project_paths@.len() + i]@);
            assert(project_paths@.map_values(|p: String| p@)[i] == project_paths@[i]@);
        }
        assert(all[0] == lines@[0]@);
        assert(all[1] == lines@[1]@);
        if platform == Platform::Windows {
            assert(all[2] == lines@[2]@);
        }
    }
    lines
}

/// Whatever the platform and the walk, the rerun lines start with the
/// always-watched paths (`build/` and `m64prs-build-all.py`, then the
/// solution on Windows) and end with one directive for each project path
/// given, in order; the watched sources lie between.
pub proof fn rerun_lines_announce_everything(
    platform: Platform,
    entries: Seq<SourceEntry>,
    project_paths: Seq<Seq<char>>,
)
    ensures
        rerun_lines_of(platform, entries, project_paths).len() == fixed_watch_paths_of(platform).len()
            + source_directives_of(entries).len() + project_paths.len(),
        fixed_watch_paths_of(platform).len() >= 2,
        rerun_lines_of(platform, entries, project_paths)[0] == "cargo::rerun-if-changed="@
            + "build/"@,
        rerun_lines_of(platform, entries, project_paths)[1] == "cargo::rerun-if-changed="@
            + "m64prs-build-all.py"@,
        platform == Platform::Windows ==> rerun_lines_of(platform, entries, project_paths)[2]
            == "cargo::rerun-if-changed="@ + "m64prs-vs-deps.sln"@,
        forall|i: int|
            0 <= i < project_paths.len() ==> #[trigger] rerun_lines_of(
                platform,
                entries,
                project_paths,
            )[rerun_lines_of(platform, entries, project_paths).len() - project_paths.len() + i]
                == "cargo::rerun-if-changed="@ + project_paths[i],
{
    let lines = rerun_lines_of(platform, entries, project_paths);
    let head = fixed_watch_paths_of(platform).map_values(|p: Seq<char>| directive(p))
        + source_directives_of(entries);
    assert(lines == head + project_paths.map_values(|p: Seq<char>| directive(p)));
    assert forall|i: int| 0 <= i < project_paths.len() implies #[trigger] lines[lines.len()
        - project_paths.len() + i] == "cargo::rerun-if-changed="@ + project_paths[i] by {
        assert(lines[head.len() + i] == directive(project_paths[i]));
    }
    assert(lines[0] == directive("build/"@));
    assert(lines[1] == directive("m64prs-build-all.py"@));
    if platform == Platform::Windows {
        assert(lines[2] == directive("m64prs-vs-deps.sln"@));
    }
}

/// A source entry is watched exactly when it is a file and none of its path
/// components, at any depth, is `asm_defines`.
pub proof fn watched_sources_skip_asm_defines(is_file: bool, components: Seq<Seq<char>>)
    ensures
        is_watched_source(is_file, components) == (is_file && forall|j: int|
            0 <= j < components.len() ==> #[trigger] components[j] != "asm_defines"@),
{
    if is_file && !is_watched_source(is_file, components) {
        assert(components.contains("asm_defines"@));
        let j = choose|j: int| 0 <= j < components.len() && components[j] == "asm_defines"@;
        assert(components[j] == "asm_defines"@);
    }
    if is_file && is_watched_source(is_file, components) {
        assert forall|j: int| 0 <= j < components.len() implies #[trigger] components[j]
            != "asm_defines"@ by {
            if components[j] == "asm_defines"@ {
                assert(components.contains("asm_defines"@));
            }
        }
    }
}


} // verus!
