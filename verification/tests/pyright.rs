use lspi_lsp::pathext::candidates_with_endings;
use lspi_lsp::pyright::{
    executable_candidates, first_executable, is_executable, preflight_pyright,
    resolve_basedpyright_command, resolve_command_in_paths, resolve_pyright_command,
    search_candidates, CommandError, CommandPath, FileStatus, Naming, PathRules,
};
use std::cell::RefCell;
use std::path::{Path, PathBuf};

fn file(mode: u32) -> Option<FileStatus> {
    Some(FileStatus { is_file: true, mode: Some(mode) })
}

fn read(command: &str) -> CommandPath<PathBuf> {
    let path = Path::new(command);
    CommandPath {
        path: path.to_path_buf(),
        absolute: path.is_absolute(),
        components: path.components().count(),
    }
}

fn join(directory: &PathBuf, command: &str) -> PathBuf {
    directory.join(command)
}

fn has_extension(path: &PathBuf) -> bool {
    path.extension().is_some()
}

fn with_extension(path: &PathBuf, ending: &String) -> PathBuf {
    path.with_extension(ending)
}

type Rules = PathRules<
    fn(&str) -> CommandPath<PathBuf>,
    fn(&PathBuf, &str) -> PathBuf,
    fn(&PathBuf) -> bool,
    fn(&PathBuf, &String) -> PathBuf,
>;

fn rules(naming: Naming) -> Rules {
    PathRules { naming, read, join, has_extension, with_extension }
}

fn endings(pathext: &str) -> Naming {
    Naming::Endings { pathext: Some(pathext.to_string()) }
}

fn paths(texts: &[&str]) -> Vec<PathBuf> {
    texts.iter().map(PathBuf::from).collect()
}

#[test]
fn resolves_language_server_without_running_help_or_version() {
    let directory = PathBuf::from("/tmp/tools");
    let executable = directory.join("pyright-langserver");
    let probe = |path: &PathBuf| if *path == executable { file(0o755) } else { None };
    let rules = rules(Naming::Exact);

    assert_eq!(
        resolve_command_in_paths("pyright-langserver", &vec![directory], &rules, probe),
        Some(executable.clone())
    );
    assert_eq!(
        resolve_command_in_paths(
            "missing-langserver",
            &vec![PathBuf::from("/missing")],
            &rules,
            probe
        ),
        None
    );
}

#[test]
fn earlier_directories_win_and_later_ones_are_not_looked_at() {
    let asked = RefCell::new(Vec::new());
    let probe = |path: &PathBuf| {
        asked.borrow_mut().push(path.clone());
        match path.to_str().unwrap() {
            "/a/tool" => file(0o644),
            "/b/tool" | "/c/tool" => file(0o100),
            _ => None,
        }
    };
    let directories = paths(&["/none", "/a", "/b/", "/c"]);
    assert_eq!(
        resolve_command_in_paths("tool", &directories, &rules(Naming::Exact), probe),
        Some(PathBuf::from("/b/tool"))
    );
    assert_eq!(*asked.borrow(), paths(&["/none/tool", "/a/tool", "/b/tool"]));
}

#[test]
fn commands_with_a_path_are_looked_for_there_alone() {
    let search = |command: &str, directories: &[&str]| {
        search_candidates(command, &paths(directories), &rules(Naming::Exact))
    };
    for directories in [&["/usr/bin"][..], &["/bin", "/sbin"][..], &[][..]] {
        assert_eq!(search("/opt/tool", directories), paths(&["/opt/tool"]));
        assert_eq!(search("/", directories), paths(&["/"]));
        assert_eq!(search("./tool", directories), paths(&["./tool"]));
        assert_eq!(search("bin/tool", directories), paths(&["bin/tool"]));
    }
    assert_eq!(search("tool", &["/usr/bin", "/bin"]), paths(&["/usr/bin/tool", "/bin/tool"]));
    assert_eq!(search("tool/", &["/usr/bin"]), paths(&["/usr/bin/tool/"]));
    assert_eq!(search("", &["/usr/bin"]), paths(&["/usr/bin/"]));
    assert_eq!(search("tool", &[]), paths(&[]));
}

#[test]
fn directories_in_a_row_are_searched_in_turn() {
    let probe = |path: &PathBuf| match path.to_str().unwrap() {
        "/b/tool" | "/c/tool" | "/c/last" => file(0o755),
        _ => None,
    };
    let search = |command: &str, directories: &[&str]| {
        resolve_command_in_paths(command, &paths(directories), &rules(Naming::Exact), probe)
    };
    for command in ["tool", "last", "none", "/b/tool", "/x/none"] {
        for (first, second) in [(&["/a", "/b"][..], &["/c"][..]), (&[][..], &["/c", "/b"][..])] {
            assert_eq!(
                search(command, &[first, second].concat()),
                search(command, first).or(search(command, second))
            );
        }
    }
    assert_eq!(search("tool", &["/a", "/b", "/c"]), Some(PathBuf::from("/b/tool")));
    assert_eq!(search("last", &["/a", "/b", "/c"]), Some(PathBuf::from("/c/last")));
}

#[test]
fn a_path_comes_before_the_path_with_each_ending() {
    let candidates = |path: &str, naming: Naming| {
        let path = PathBuf::from(path);
        let extended = has_extension(&path);
        executable_candidates(path, extended, &naming, with_extension)
    };
    let usual = Naming::Endings { pathext: None };
    assert_eq!(
        candidates("d/tool", usual),
        paths(&["d/tool", "d/tool.COM", "d/tool.EXE", "d/tool.BAT", "d/tool.CMD"])
    );
    assert_eq!(
        candidates("tool", endings(" .py ;; ;..SH")),
        paths(&["tool", "tool.py", "tool.SH"])
    );
    assert_eq!(candidates("tool.exe", endings(".py")), paths(&["tool.exe"]));
    assert_eq!(candidates("tool", endings("")), paths(&["tool"]));
    assert_eq!(candidates("tool", Naming::Exact), paths(&["tool"]));
}

#[test]
fn endings_are_applied_in_order_to_any_kind_of_path() {
    let endings = vec!["a".to_string(), "b".to_string()];
    let with = |path: &String, ending: &String| format!("{path}+{ending}");
    assert_eq!(candidates_with_endings("x".to_string(), &endings, with), ["x", "x+a", "x+b"]);
    assert_eq!(candidates_with_endings("x".to_string(), &Vec::new(), with), ["x"]);
}

#[test]
fn every_ending_is_tried_before_the_next_directory() {
    let rules = rules(endings(".EXE;.CMD"));
    assert_eq!(
        search_candidates("tool", &paths(&["/a", "/b"]), &rules),
        paths(&["/a/tool", "/a/tool.EXE", "/a/tool.CMD", "/b/tool", "/b/tool.EXE", "/b/tool.CMD"])
    );
    assert_eq!(
        search_candidates("/x/tool", &paths(&["/a"]), &rules),
        paths(&["/x/tool", "/x/tool.EXE", "/x/tool.CMD"])
    );
    let probe = |path: &PathBuf| {
        let there = ["/a/tool.CMD", "/b/tool"].contains(&path.to_str().unwrap());
        Some(FileStatus { is_file: there, mode: None })
    };
    assert_eq!(
        resolve_command_in_paths("tool", &paths(&["/a", "/b"]), &rules, probe),
        Some(PathBuf::from("/a/tool.CMD"))
    );
}

#[test]
fn only_files_that_someone_may_run_are_executable() {
    assert!(is_executable(file(0o755)));
    assert!(is_executable(file(0o100)));
    assert!(is_executable(file(0o010)));
    assert!(is_executable(file(0o001)));
    assert!(!is_executable(file(0o666)));
    assert!(!is_executable(Some(FileStatus { is_file: false, mode: Some(0o755) })));
    assert!(!is_executable(None));
    assert!(is_executable(Some(FileStatus { is_file: true, mode: None })));
    assert!(!is_executable(Some(FileStatus { is_file: false, mode: None })));
}

#[test]
fn first_executable_of_any_candidates() {
    let probe = |candidate: &u32| file(*candidate);
    assert_eq!(first_executable(vec![0o600, 0o700, 0o777], probe), Some(0o700));
    assert_eq!(first_executable(vec![0o600], probe), None);
}

#[test]
fn preflight_says_what_is_missing() {
    let nothing = |_: &PathBuf| None;
    let everything = |_: &PathBuf| file(0o755);
    let rules = rules(Naming::Exact);
    let directories = paths(&["/bin"]);
    assert_eq!(preflight_pyright("pyright-langserver", &directories, &rules, everything), Ok(()));
    assert_eq!(
        preflight_pyright("pyright-langserver", &Vec::new(), &rules, everything),
        Err(CommandError::NotOnPath)
    );
    let error = preflight_pyright("pyright-langserver", &directories, &rules, nothing).unwrap_err();
    assert_eq!(
        error.message(),
        "pyright-langserver is not available on PATH. Install Pyright (e.g. `npm i -g pyright`) and ensure `pyright-langserver` is runnable, or set LSPI_PYRIGHT_COMMAND / LSPI_BASEDPYRIGHT_COMMAND."
    );
}

#[test]
fn commands_can_be_configured() {
    assert_eq!(resolve_pyright_command(None).unwrap(), "pyright-langserver");
    assert_eq!(resolve_pyright_command(Some("  ".to_string())).unwrap(), "pyright-langserver");
    assert_eq!(resolve_pyright_command(Some(" /x ".to_string())).unwrap(), " /x ");
    assert_eq!(resolve_basedpyright_command(None).unwrap(), "basedpyright-langserver");
    assert_eq!(resolve_basedpyright_command(Some("\n".to_string())).unwrap(), "basedpyright-langserver");
    assert_eq!(resolve_basedpyright_command(Some("b".to_string())).unwrap(), "b");
}
