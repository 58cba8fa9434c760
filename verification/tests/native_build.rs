use m64prs::native_build::{
    core_project_files, fixed_watch_paths, knows_profile, msbuild_configuration, msvc_target,
    rerun_directive, rerun_lines, source_directive, supports_msvc_arch, watches_source, Platform,
    SourceEntry,
};

fn strings(v: &[&str]) -> Vec<String> {
    v.iter().map(|s| s.to_string()).collect()
}

#[test]
fn directive_format() {
    assert_eq!(rerun_directive("build/"), "cargo::rerun-if-changed=build/");
    assert_eq!(rerun_directive(""), "cargo::rerun-if-changed=");
}

#[test]
fn fixed_paths_unix() {
    assert_eq!(fixed_watch_paths(Platform::Unix), strings(&["build/", "m64prs-build-all.py"]));
}

#[test]
fn fixed_paths_windows() {
    assert_eq!(
        fixed_watch_paths(Platform::Windows),
        strings(&["build/", "m64prs-build-all.py", "m64prs-vs-deps.sln"])
    );
}

#[test]
fn project_files_unix() {
    assert_eq!(
        core_project_files(Platform::Unix),
        vec![("projects/unix".to_string(), "Makefile".to_string())]
    );
}

#[test]
fn project_files_windows() {
    assert_eq!(
        core_project_files(Platform::Windows),
        vec![
            ("projects/msvc".to_string(), "mupen64plus-core.vcxproj".to_string()),
            ("projects/msvc".to_string(), "mupen64plus-core.vcxproj.filters".to_string()),
        ]
    );
}

#[test]
fn plain_source_file_is_watched() {
    let comps = strings(&["core", "src", "main", "main.c"]);
    assert!(watches_source(true, &comps));
    assert_eq!(
        source_directive("core/src/main/main.c", true, &comps),
        Some("cargo::rerun-if-changed=core/src/main/main.c".to_string())
    );
}

#[test]
fn directories_are_not_watched() {
    let comps = strings(&["core", "src", "main"]);
    assert!(!watches_source(false, &comps));
    assert_eq!(source_directive("core/src/main", false, &comps), None);
}

#[test]
fn generated_asm_defines_are_not_watched() {
    let comps = strings(&["core", "src", "asm_defines", "asm_defines_gas.h"]);
    assert!(!watches_source(true, &comps));
    assert_eq!(source_directive("core/src/asm_defines/asm_defines_gas.h", true, &comps), None);
}

#[test]
fn only_whole_component_asm_defines_excludes() {
    let comps = strings(&["core", "src", "asm_defines.c"]);
    assert!(watches_source(true, &comps));
}

#[test]
fn msvc_targets() {
    assert_eq!(msvc_target(&"x86".to_string()), ("x86".to_string(), "Win32".to_string()));
    assert_eq!(msvc_target(&"x86_64".to_string()), ("amd64".to_string(), "x64".to_string()));
}

#[test]
fn supported_msvc_architectures() {
    assert!(supports_msvc_arch(&"x86".to_string()));
    assert!(supports_msvc_arch(&"x86_64".to_string()));
    assert!(!supports_msvc_arch(&"aarch64".to_string()));
}

#[test]
fn msbuild_configurations() {
    assert_eq!(msbuild_configuration(&"debug".to_string()), "Debug".to_string());
    assert_eq!(msbuild_configuration(&"release".to_string()), "Release".to_string());
}

#[test]
fn known_profiles() {
    assert!(knows_profile(&"debug".to_string()));
    assert!(knows_profile(&"release".to_string()));
    assert!(!knows_profile(&"bench".to_string()));
}

#[test]
fn other_platforms_watch_no_project_files() {
    assert_eq!(fixed_watch_paths(Platform::Other), strings(&["build/", "m64prs-build-all.py"]));
    assert!(core_project_files(Platform::Other).is_empty());
}

fn entry(path: &str, is_file: bool) -> SourceEntry {
    SourceEntry {
        path: path.to_string(),
        is_file,
        components: path.split('/').map(|c| c.to_string()).collect(),
    }
}

#[test]
fn rerun_lines_in_order() {
    let entries = vec![
        entry("core/src", false),
        entry("core/src/main.c", true),
        entry("core/src/asm_defines/gen.h", true),
        entry("core/src/api/api.c", true),
    ];
    let projects = strings(&["core/projects/unix/Makefile"]);
    assert_eq!(
        rerun_lines(Platform::Unix, &entries, &projects),
        strings(&[
            "cargo::rerun-if-changed=build/",
            "cargo::rerun-if-changed=m64prs-build-all.py",
            "cargo::rerun-if-changed=core/src/main.c",
            "cargo::rerun-if-changed=core/src/api/api.c",
            "cargo::rerun-if-changed=core/projects/unix/Makefile",
        ])
    );
}

#[test]
fn rerun_lines_windows_start_with_solution() {
    let lines = rerun_lines(Platform::Windows, &Vec::new(), &Vec::new());
    assert_eq!(
        lines,
        strings(&[
            "cargo::rerun-if-changed=build/",
            "cargo::rerun-if-changed=m64prs-build-all.py",
            "cargo::rerun-if-changed=m64prs-vs-deps.sln",
        ])
    );
}
