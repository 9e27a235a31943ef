//! Finding the Pyright language server.

#[allow(unused_imports)]
use crate::pathext::{endings, text_views, with_endings};
use crate::pathext::{candidates_with_endings, executable_extensions};
#[allow(unused_imports)]
use crate::text::blank;
use crate::text::is_blank;
use vstd::prelude::*;
#[allow(unused_imports)]
use vstd::seq_lib::lemma_flatten_concat;

verus! {

/// Why a language server cannot be used.
#[derive(Debug, Clone, Copy, PartialEq, Eq, Structural)]
pub enum CommandError {
    NotOnPath,
}

impl CommandError {
    /// The error in words.
    pub open spec fn words(self) -> Seq<char> {
        "pyright-langserver is not available on PATH. Install Pyright (e.g. `npm i -g pyright`) and ensure `pyright-langserver` is runnable, or set LSPI_PYRIGHT_COMMAND / LSPI_BASEDPYRIGHT_COMMAND."@
    }

    /// The error in words.
    pub fn message(&self) -> (text: &'static str)
        ensures
            text@ == self.words(),
    {
        "pyright-langserver is not available on PATH. Install Pyright (e.g. `npm i -g pyright`) and ensure `pyright-langserver` is runnable, or set LSPI_PYRIGHT_COMMAND / LSPI_BASEDPYRIGHT_COMMAND."
    }
}

/// The command that is configured, where one is, and otherwise the usual one.
pub open spec fn configured(value: Option<Seq<char>>, usual: Seq<char>) -> Seq<char> {
    match value {
        Some(command) => if blank(command) {
            usual
        } else {
            command
        },
        None => usual,
    }
}

/// A value of the environment as a sequence.
pub open spec fn text_of(value: Option<String>) -> Option<Seq<char>> {
    match value {
        Some(text) => Some(text@),
        None => None,
    }
}

fn configured_or(value: Option<String>, usual: &str) -> (command: String)
    ensures
        command@ == configured(text_of(value), usual@),
{
    match value {
        Some(command) => if is_blank(command.as_str()) {
            usual.to_owned()
        } else {
            command
        },
        None => usual.to_owned(),
    }
}

/// The command that runs Pyright, when `value` is what `LSPI_PYRIGHT_COMMAND` is set to.
pub fn resolve_pyright_command(value: Option<String>) -> (command: Result<String, CommandError>)
    ensures
        command is Ok,
        command->Ok_0@ == configured(text_of(value), "pyright-langserver"@),
{
    Ok(configured_or(value, "pyright-langserver"))
}

/// The command that runs basedpyright, when `value` is what `LSPI_BASEDPYRIGHT_COMMAND` is set to.
pub fn resolve_basedpyright_command(value: Option<String>) -> (command: Result<
    String,
    CommandError,
>)
    ensures
        command is Ok,
        command->Ok_0@ == configured(text_of(value), "basedpyright-langserver"@),
{
    Ok(configured_or(value, "basedpyright-langserver"))
}

/// What the file system says of a path. There are permission bits where the system has them.
#[derive(Debug, Clone, Copy, PartialEq, Eq, Structural)]
pub struct FileStatus {
    pub is_file: bool,
    pub mode: Option<u32>,
}

/// The permission bits that let someone run a file.
pub const RUN_BITS: u32 = 0o111;

/// Whether a path can be run: there is a file, and someone may run it where the system says who
/// may.
pub open spec fn executable(status: Option<FileStatus>) -> bool {
    status matches Some(status) && status.is_file && match status.mode {
        Some(mode) => mode & RUN_BITS != 0,
        None => true,
    }
}

/// Whether a path with this status can be run. A path of which the file system says nothing
/// cannot.
pub fn is_executable(status: Option<FileStatus>) -> (result: bool)
    ensures
        result == executable(status),
{
    match status {
        Some(status) => status.is_file && match status.mode {
            Some(mode) => mode & RUN_BITS != 0,
            None => true,
        },
        None => false,
    }
}

/// Whether `probe` can say of a candidate that it can be run, or that it cannot.
pub open spec fn probed<P, F: Fn(&P) -> Option<FileStatus>>(
    probe: F,
    candidate: P,
    runs: bool,
) -> bool {
    exists|status: Option<FileStatus>|
        #[trigger] call_ensures(probe, (&candidate,), status) && executable(status) == runs
}

/// Whether `found` is the first of the candidates that `probe` says can be run.
pub open spec fn first_found<P, F: Fn(&P) -> Option<FileStatus>>(
    candidates: Seq<P>,
    probe: F,
    found: Option<P>,
) -> bool {
    match found {
        Some(candidate) => exists|i: int|
            0 <= i < candidates.len() && #[trigger] candidates[i] == candidate && probed(
                probe,
                candidate,
                true,
            ) && forall|j: int| 0 <= j < i ==> probed(probe, #[trigger] candidates[j], false),
        None => forall|j: int|
            0 <= j < candidates.len() ==> probed(probe, #[trigger] candidates[j], false),
    }
}

/// The first of the candidates that can be run. Those after it are not looked at.
pub fn first_executable<P, F: Fn(&P) -> Option<FileStatus>>(candidates: Vec<P>, probe: F) -> (found:
    Option<P>)
    requires
        forall|candidate: &P| call_requires(probe, (candidate,)),
    ensures
        first_found(candidates@, probe, found),
{
    let ghost all = candidates@;
    for candidate in iter: candidates
        invariant
            iter.seq() == all,
            forall|candidate: &P| call_requires(probe, (candidate,)),
            forall|j: int| 0 <= j < iter.index() ==> probed(probe, #[trigger] all[j], false),
    {
        assert(all[iter.index()] == candidate);
        let status: Option<FileStatus> = probe(&candidate);
        assert(call_ensures(probe, (&candidate,), status));
        if is_executable(status) {
            assert(probed(probe, candidate, true));
            return Some(candidate);
        }
        assert(probed(probe, candidate, false));
    }
    None
}

/// Which files a name can stand for.
#[derive(Debug, PartialEq, Eq)]
pub enum Naming {
    /// The file of that name.
    Exact,
    /// Where the name has no ending, also the files with an ending that runs, as on Windows.
    Endings {
        /// What `PATHEXT` is set to.
        pathext: Option<String>,
    },
}

impl Naming {
    /// The endings to try on a path, in order.
    pub open spec fn endings(self, has_extension: bool) -> Seq<Seq<char>> {
        match self {
            Naming::Exact => Seq::empty(),
            Naming::Endings { pathext } => endings(has_extension, text_of(pathext)),
        }
    }
}

/// Whether `candidates` are what a path to run stands for: the path itself, and then the path with
/// each of the endings that the naming knows.
pub open spec fn stands_for<P, W: Fn(&P, &String) -> P>(
    naming: Naming,
    has_extension: bool,
    with_extension: W,
    path: P,
    candidates: Seq<P>,
) -> bool {
    exists|tried: Seq<String>|
        #[trigger] text_views(tried) == naming.endings(has_extension) && with_endings(
            path,
            tried,
            with_extension,
            candidates,
        )
}

/// Lists what a path to run stands for. `has_extension` says whether it has an ending already,
/// `with_extension` what a path is with an ending.
pub fn executable_candidates<P, W: Fn(&P, &String) -> P>(
    path: P,
    has_extension: bool,
    naming: &Naming,
    with_extension: W,
) -> (candidates: Vec<P>)
    requires
        forall|path: &P, ending: &String| call_requires(with_extension, (path, ending)),
    ensures
        stands_for(*naming, has_extension, with_extension, path, candidates@),
{
    let tried: Vec<String> = match naming {
        Naming::Exact => Vec::new(),
        Naming::Endings { pathext } => {
            let list: Option<String> = match pathext {
                Some(list) => Some(list.clone()),
                None => None,
            };
            executable_extensions(has_extension, list)
        },
    };
    assert(text_views(tried@) =~= naming.endings(has_extension));
    candidates_with_endings(path, &tried, with_extension)
}

/// A command read as a path: whether that is absolute, and how many components it has.
#[derive(Debug, PartialEq, Eq)]
pub struct CommandPath<P> {
    pub path: P,
    pub absolute: bool,
    pub components: usize,
}

impl<P> CommandPath<P> {
    /// Whether the command is more than a name.
    pub open spec fn leads_somewhere(self) -> bool {
        self.absolute || self.components > 1
    }
}

/// What a system makes of paths: how it reads a command as one, where a command is in a directory,
/// whether a path has an ending, and what it is with another one.
pub struct PathRules<R, J, H, W> {
    pub naming: Naming,
    pub read: R,
    pub join: J,
    pub has_extension: H,
    pub with_extension: W,
}

/// Whether `places` is where a command is looked for, in this order: at its own path if it is more
/// than a name, else under its name in each of the directories.
pub open spec fn looks_in<P, J: Fn(&P, &str) -> P>(
    join: J,
    command: &str,
    read: CommandPath<P>,
    paths: Seq<P>,
    places: Seq<P>,
) -> bool {
    if read.leads_somewhere() {
        places == seq![read.path]
    } else {
        &&& places.len() == paths.len()
        &&& forall|i: int|
            0 <= i < paths.len() ==> call_ensures(join, (&paths[i], command), #[trigger] places[i])
    }
}

/// Whether `candidates` are what a place stands for, under the rules of a system.
pub open spec fn place_stands_for<P, R, J, H, W>(
    rules: PathRules<R, J, H, W>,
    place: P,
    candidates: Seq<P>,
) -> bool where H: Fn(&P) -> bool, W: Fn(&P, &String) -> P {
    exists|extended: bool|
        #[trigger] call_ensures(rules.has_extension, (&place,), extended) && stands_for(
            rules.naming,
            extended,
            rules.with_extension,
            place,
            candidates,
        )
}

/// Whether a command, read as `read`, is looked for at `places`, which stand for `lists`.
pub open spec fn searches<P, R, J, H, W>(
    rules: PathRules<R, J, H, W>,
    command: &str,
    paths: Seq<P>,
    read: CommandPath<P>,
    places: Seq<P>,
    lists: Seq<Seq<P>>,
) -> bool where
    R: Fn(&str) -> CommandPath<P>,
    J: Fn(&P, &str) -> P,
    H: Fn(&P) -> bool,
    W: Fn(&P, &String) -> P,
 {
    &&& call_ensures(rules.read, (command,), read)
    &&& looks_in(rules.join, command, read, paths, places)
    &&& lists.len() == places.len()
    &&& forall|i: int|
        0 <= i < places.len() ==> place_stands_for(rules, places[i], #[trigger] lists[i])
}

/// Whether the rules can be applied to a command and to any path.
pub open spec fn applicable<P, R, J, H, W>(
    rules: PathRules<R, J, H, W>,
    command: &str,
) -> bool where
    R: Fn(&str) -> CommandPath<P>,
    J: Fn(&P, &str) -> P,
    H: Fn(&P) -> bool,
    W: Fn(&P, &String) -> P,
 {
    &&& call_requires(rules.read, (command,))
    &&& forall|path: &P| call_requires(rules.join, (path, command))
    &&& forall|path: &P| call_requires(rules.has_extension, (path,))
    &&& forall|path: &P, ending: &String| call_requires(rules.with_extension, (path, ending))
}

/// Lists every path that a command may be at, in the order in which they are looked at.
pub fn search_candidates<P, R, J, H, W>(
    command: &str,
    paths: &Vec<P>,
    rules: &PathRules<R, J, H, W>,
) -> (candidates: Vec<P>) where
    R: Fn(&str) -> CommandPath<P>,
    J: Fn(&P, &str) -> P,
    H: Fn(&P) -> bool,
    W: Fn(&P, &String) -> P,

    requires
        applicable::<P, R, J, H, W>(*rules, command),
    ensures
        exists|read: CommandPath<P>, places: Seq<P>, lists: Seq<Seq<P>>|
            #[trigger] searches(*rules, command, paths@, read, places, lists) && candidates@
                == lists.flatten(),
{
    let read: CommandPath<P> = (rules.read)(command);
    let ghost found = read;
    if read.absolute || read.components > 1 {
        let extended: bool = (rules.has_extension)(&read.path);
        let candidates: Vec<P> = executable_candidates(
            read.path,
            extended,
            &rules.naming,
            &rules.with_extension,
        );
        proof {
            let lists = seq![candidates@];
            lists.lemma_flatten_one_element();
            assert(searches(*rules, command, paths@, found, seq![found.path], lists));
        }
        return candidates;
    }
    let mut candidates: Vec<P> = Vec::new();
    let mut i: usize = 0;
    let ghost mut places: Seq<P> = Seq::empty();
    let ghost mut lists: Seq<Seq<P>> = Seq::empty();
    while i < paths.len()
        invariant
            applicable::<P, R, J, H, W>(*rules, command),
            i <= paths@.len(),
            places.len() == i,
            lists.len() == i,
            forall|j: int|
                0 <= j < i ==> call_ensures(
                    rules.join,
                    (&paths@[j], command),
                    #[trigger] places[j],
                ),
            forall|j: int| 0 <= j < i ==> place_stands_for(*rules, places[j], #[trigger] lists[j]),
            candidates@ == lists.flatten(),
        decreases paths@.len() - i,
    {
        let place: P = (rules.join)(&paths[i], command);
        let extended: bool = (rules.has_extension)(&place);
        let ghost at = place;
        let mut here: Vec<P> = executable_candidates(
            place,
            extended,
            &rules.naming,
            &rules.with_extension,
        );
        proof {
            assert(place_stands_for(*rules, at, here@));
            lists.lemma_flatten_push(here@);
            places = places.push(at);
            lists = lists.push(here@);
        }
        candidates.append(&mut here);
        i = i + 1;
    }
    assert(searches(*rules, command, paths@, found, places, lists));
    candidates
}

/// Whether looking for a command can come to `found`.
pub open spec fn resolves_to<P, R, J, H, W, F>(
    rules: PathRules<R, J, H, W>,
    command: &str,
    paths: Seq<P>,
    probe: F,
    found: Option<P>,
) -> bool where
    R: Fn(&str) -> CommandPath<P>,
    J: Fn(&P, &str) -> P,
    H: Fn(&P) -> bool,
    W: Fn(&P, &String) -> P,
    F: Fn(&P) -> Option<FileStatus>,
 {
    exists|read: CommandPath<P>, places: Seq<P>, lists: Seq<Seq<P>>|
        #[trigger] searches(rules, command, paths, read, places, lists) && first_found(
            lists.flatten(),
            probe,
            found,
        )
}

/// Looks for a command: the first path that it may be at and that can be run. `rules` is what the
/// system makes of paths, and `probe` says what the file system says of one.
pub fn resolve_command_in_paths<P, R, J, H, W, F>(
    command: &str,
    paths: &Vec<P>,
    rules: &PathRules<R, J, H, W>,
    probe: F,
) -> (found: Option<P>) where
    R: Fn(&str) -> CommandPath<P>,
    J: Fn(&P, &str) -> P,
    H: Fn(&P) -> bool,
    W: Fn(&P, &String) -> P,
    F: Fn(&P) -> Option<FileStatus>,

    requires
        applicable::<P, R, J, H, W>(*rules, command),
        forall|candidate: &P| call_requires(probe, (candidate,)),
    ensures
        resolves_to(*rules, command, paths@, probe, found),
{
    let candidates: Vec<P> = search_candidates(command, paths, rules);
    first_executable(candidates, probe)
}

/// Checks that a command can be found.
pub fn preflight_pyright<P, R, J, H, W, F>(
    command: &str,
    paths: &Vec<P>,
    rules: &PathRules<R, J, H, W>,
    probe: F,
) -> (result: Result<(), CommandError>) where
    R: Fn(&str) -> CommandPath<P>,
    J: Fn(&P, &str) -> P,
    H: Fn(&P) -> bool,
    W: Fn(&P, &String) -> P,
    F: Fn(&P) -> Option<FileStatus>,

    requires
        applicable::<P, R, J, H, W>(*rules, command),
        forall|candidate: &P| call_requires(probe, (candidate,)),
    ensures
        exists|found: Option<P>|
            {
                &&& #[trigger] resolves_to(*rules, command, paths@, probe, found)
                &&& result == if found is Some {
                    Ok::<(), CommandError>(())
                } else {
                    Err(CommandError::NotOnPath)
                }
            },
{
    let found: Option<P> = resolve_command_in_paths(command, paths, rules, probe);
    assert(resolves_to(*rules, command, paths@, probe, found));
    match found {
        Some(_) => Ok(()),
        None => Err(CommandError::NotOnPath),
    }
}

/// Whether `candidate` can be a path with an ending.
pub open spec fn is_with_ending<P, W: Fn(&P, &String) -> P>(
    ending: Seq<char>,
    with_extension: W,
    path: P,
    candidate: P,
) -> bool {
    exists|text: String|
        text@ == ending && #[trigger] call_ensures(with_extension, (&path, &text), candidate)
}

/// A path is always the first of what it stands for. It is all of it where the naming is exact or
/// the path has an ending; otherwise one more candidate comes for each ending, in their order.
pub proof fn law_path_is_first_candidate<P, W: Fn(&P, &String) -> P>(
    naming: Naming,
    has_extension: bool,
    with_extension: W,
    path: P,
    candidates: Seq<P>,
)
    requires
        stands_for(naming, has_extension, with_extension, path, candidates),
    ensures
        candidates.len() == 1 + naming.endings(has_extension).len(),
        candidates[0] == path,
        naming is Exact || has_extension ==> candidates == seq![path],
        forall|i: int|
            0 < i < candidates.len() ==> is_with_ending(
                naming.endings(has_extension)[i - 1],
                with_extension,
                path,
                #[trigger] candidates[i],
            ),
{
    let tried = choose|tried: Seq<String>|
        #[trigger] text_views(tried) == naming.endings(has_extension) && with_endings(
            path,
            tried,
            with_extension,
            candidates,
        );
    assert forall|i: int| 0 < i < candidates.len() implies is_with_ending(
        naming.endings(has_extension)[i - 1],
        with_extension,
        path,
        #[trigger] candidates[i],
    ) by {
        let ending = tried[i - 1];
        assert(ending@ == text_views(tried)[i - 1]);
        assert(call_ensures(with_extension, (&path, &ending), candidates[i - 1 + 1]));
    }
    assert(text_views(tried).len() == tried.len());
    if naming is Exact || has_extension {
        assert(candidates =~= seq![path]);
    }
}

/// A command that is more than a name, because its path is absolute or has several components, is
/// looked for there and nowhere else: what is found is the same whatever the directories are.
pub proof fn law_command_with_path_ignores_directories<P, R, J, H, W, F>(
    rules: PathRules<R, J, H, W>,
    command: &str,
    paths: Seq<P>,
    others: Seq<P>,
    probe: F,
    found: Option<P>,
) where
    R: Fn(&str) -> CommandPath<P>,
    J: Fn(&P, &str) -> P,
    H: Fn(&P) -> bool,
    W: Fn(&P, &String) -> P,
    F: Fn(&P) -> Option<FileStatus>,

    requires
        forall|read: CommandPath<P>| #[trigger]
            call_ensures(rules.read, (command,), read) ==> read.absolute || read.components > 1,
        resolves_to(rules, command, paths, probe, found),
    ensures
        resolves_to(rules, command, others, probe, found),
{
    let (read, places, lists) = choose|
        read: CommandPath<P>,
        places: Seq<P>,
        lists: Seq<Seq<P>>,
    |
        #[trigger] searches(rules, command, paths, read, places, lists) && first_found(
            lists.flatten(),
            probe,
            found,
        );
    assert(searches(rules, command, others, read, places, lists));
}

/// A command that is more than a name is looked for in one place, its own path.
pub proof fn law_command_with_path_has_one_place<P, J: Fn(&P, &str) -> P>(
    join: J,
    command: &str,
    read: CommandPath<P>,
    paths: Seq<P>,
    places: Seq<P>,
)
    requires
        read.absolute || read.components > 1,
    ensures
        looks_in(join, command, read, paths, places) <==> places == seq![read.path],
{
}

/// A mere name is looked for once in each directory, in their order, and nowhere else.
pub proof fn law_name_is_looked_for_in_directories<P, J: Fn(&P, &str) -> P>(
    join: J,
    command: &str,
    read: CommandPath<P>,
    paths: Seq<P>,
    places: Seq<P>,
)
    requires
        !read.absolute,
        read.components <= 1,
        looks_in(join, command, read, paths, places),
    ensures
        places.len() == paths.len(),
        forall|i: int|
            0 <= i < paths.len() ==> call_ensures(join, (&paths[i], command), #[trigger] places[i]),
{
}

/// What is found is one of the candidates of a place where the command is looked for, and it can
/// be run.
pub proof fn law_found_is_a_candidate<P, R, J, H, W, F>(
    rules: PathRules<R, J, H, W>,
    command: &str,
    paths: Seq<P>,
    probe: F,
    found: P,
) where
    R: Fn(&str) -> CommandPath<P>,
    J: Fn(&P, &str) -> P,
    H: Fn(&P) -> bool,
    W: Fn(&P, &String) -> P,
    F: Fn(&P) -> Option<FileStatus>,

    requires
        resolves_to(rules, command, paths, probe, Some(found)),
    ensures
        probed(probe, found, true),
        exists|
            read: CommandPath<P>,
            places: Seq<P>,
            lists: Seq<Seq<P>>,
            i: int,
        |
            #[trigger] searches(rules, command, paths, read, places, lists) && 0 <= i < lists.len()
                && (#[trigger] lists[i]).contains(found),
{
    let (read, places, lists) = choose|
        read: CommandPath<P>,
        places: Seq<P>,
        lists: Seq<Seq<P>>,
    |
        #[trigger] searches(rules, command, paths, read, places, lists) && first_found(
            lists.flatten(),
            probe,
            Some(found),
        );
    let i = choose|i: int|
        0 <= i < lists.flatten().len() && #[trigger] lists.flatten()[i] == found && probed(
            probe,
            found,
            true,
        ) && forall|j: int| 0 <= j < i ==> probed(probe, #[trigger] lists.flatten()[j], false);
    lemma_flattened_is_in_a_list(lists, i);
}

/// Searching two lists of directories in a row comes to what searching the first comes to, and
/// where that finds nothing, to what searching the second comes to.
pub proof fn law_directories_are_searched_in_turn<P, R, J, H, W, F>(
    rules: PathRules<R, J, H, W>,
    command: &str,
    first: Seq<P>,
    second: Seq<P>,
    probe: F,
    found: Option<P>,
) where
    R: Fn(&str) -> CommandPath<P>,
    J: Fn(&P, &str) -> P,
    H: Fn(&P) -> bool,
    W: Fn(&P, &String) -> P,
    F: Fn(&P) -> Option<FileStatus>,

    requires
        resolves_to(rules, command, first + second, probe, found),
    ensures
        found is Some && resolves_to(rules, command, first, probe, found) || resolves_to(
            rules,
            command,
            first,
            probe,
            None,
        ) && resolves_to(rules, command, second, probe, found),
{
    let (read, places, lists) = choose|
        read: CommandPath<P>,
        places: Seq<P>,
        lists: Seq<Seq<P>>,
    |
        #[trigger] searches(rules, command, first + second, read, places, lists) && first_found(
            lists.flatten(),
            probe,
            found,
        );
    if read.leads_somewhere() {
        assert(searches(rules, command, first, read, places, lists));
        assert(searches(rules, command, second, read, places, lists));
    } else {
        let n = first.len() as int;
        let (here, there) = (lists.take(n), lists.skip(n));
        assert forall|i: int| 0 <= i < first.len() implies call_ensures(
            rules.join,
            (&first[i], command),
            #[trigger] places.take(n)[i],
        ) by {
            assert(places[i] == places.take(n)[i]);
            assert((first + second)[i] == first[i]);
        }
        assert forall|i: int| 0 <= i < second.len() implies call_ensures(
            rules.join,
            (&second[i], command),
            #[trigger] places.skip(n)[i],
        ) by {
            assert(places[n + i] == places.skip(n)[i]);
            assert((first + second)[n + i] == second[i]);
        }
        assert forall|i: int| 0 <= i < here.len() implies place_stands_for(
            rules,
            places.take(n)[i],
            #[trigger] here[i],
        ) by {
            assert(here[i] == lists[i]);
        }
        assert forall|i: int| 0 <= i < there.len() implies place_stands_for(
            rules,
            places.skip(n)[i],
            #[trigger] there[i],
        ) by {
            assert(there[i] == lists[n + i]);
        }
        assert(searches(rules, command, first, read, places.take(n), here));
        assert(searches(rules, command, second, read, places.skip(n), there));
        assert(here + there =~= lists);
        lemma_flatten_concat(here, there);
        lemma_found_in_turn(here.flatten(), there.flatten(), probe, found);
    }
}

/// What is found in a first list of directories is found in it and a second one in a row, and so
/// is what is found in the second where the first holds nothing. That asks of the system that it
/// reads the command in one way, and that the second list can be searched.
pub proof fn law_directories_in_turn_are_searched<P, R, J, H, W, F>(
    rules: PathRules<R, J, H, W>,
    command: &str,
    first: Seq<P>,
    second: Seq<P>,
    probe: F,
    found: Option<P>,
) where
    R: Fn(&str) -> CommandPath<P>,
    J: Fn(&P, &str) -> P,
    H: Fn(&P) -> bool,
    W: Fn(&P, &String) -> P,
    F: Fn(&P) -> Option<FileStatus>,

    requires
        forall|one: CommandPath<P>, other: CommandPath<P>|
            #[trigger] call_ensures(rules.read, (command,), one) && #[trigger] call_ensures(
                rules.read,
                (command,),
                other,
            ) ==> one == other,
        exists|read: CommandPath<P>, places: Seq<P>, lists: Seq<Seq<P>>| #[trigger]
            searches(rules, command, second, read, places, lists),
        found is Some && resolves_to(rules, command, first, probe, found) || resolves_to(
            rules,
            command,
            first,
            probe,
            None,
        ) && resolves_to(rules, command, second, probe, found),
    ensures
        resolves_to(rules, command, first + second, probe, found),
{
    let in_first = found is Some && resolves_to(rules, command, first, probe, found);
    let nearer = if in_first {
        found
    } else {
        None
    };
    let (read, before, here) = choose|
        read: CommandPath<P>,
        places: Seq<P>,
        lists: Seq<Seq<P>>,
    |
        #[trigger] searches(rules, command, first, read, places, lists) && first_found(
            lists.flatten(),
            probe,
            nearer,
        );
    let (other, after, there) = if in_first {
        choose|read: CommandPath<P>, places: Seq<P>, lists: Seq<Seq<P>>| #[trigger]
            searches(rules, command, second, read, places, lists)
    } else {
        choose|read: CommandPath<P>, places: Seq<P>, lists: Seq<Seq<P>>|
            #[trigger] searches(rules, command, second, read, places, lists) && first_found(
                lists.flatten(),
                probe,
                found,
            )
    };
    assert(read == other);
    if read.leads_somewhere() {
        if in_first {
            assert(searches(rules, command, first + second, read, before, here));
        } else {
            assert(searches(rules, command, first + second, read, after, there));
        }
    } else {
        let places = before + after;
        let lists = here + there;
        assert forall|i: int| 0 <= i < places.len() implies call_ensures(
            rules.join,
            (&(first + second)[i], command),
            #[trigger] places[i],
        ) && place_stands_for(rules, places[i], lists[i]) by {
            if i < first.len() {
                assert(places[i] == before[i] && lists[i] == here[i]);
            } else {
                let j = i - first.len();
                assert(places[i] == after[j] && lists[i] == there[j]);
            }
        }
        assert(searches(rules, command, first + second, read, places, lists));
        lemma_flatten_concat(here, there);
        lemma_found_in_turn(here.flatten(), there.flatten(), probe, found);
    }
}

proof fn lemma_found_in_turn<P, F: Fn(&P) -> Option<FileStatus>>(
    first: Seq<P>,
    second: Seq<P>,
    probe: F,
    found: Option<P>,
)
    ensures
        first_found(first + second, probe, found) <==> found is Some && first_found(
            first,
            probe,
            found,
        ) || first_found(first, probe, None) && first_found(second, probe, found),
{
    let all = first + second;
    let n = first.len() as int;
    assert(forall|i: int| 0 <= i < n ==> #[trigger] first[i] == all[i]);
    assert(forall|i: int| 0 <= i < second.len() ==> #[trigger] second[i] == all[n + i]);
    assert(forall|i: int| n <= i < all.len() ==> #[trigger] all[i] == second[i - n]);
    if first_found(all, probe, found) && found is Some {
        let i = choose|i: int|
            0 <= i < all.len() && #[trigger] all[i] == found->0 && probed(probe, found->0, true)
                && forall|j: int| 0 <= j < i ==> probed(probe, #[trigger] all[j], false);
        if i < n {
            assert(first[i] == found->0);
        } else {
            assert(second[i - n] == found->0);
        }
    }
    if first_found(first, probe, None) && first_found(second, probe, found) && found is Some {
        let i = choose|i: int|
            0 <= i < second.len() && #[trigger] second[i] == found->0 && probed(
                probe,
                found->0,
                true,
            ) && forall|j: int| 0 <= j < i ==> probed(probe, #[trigger] second[j], false);
        assert(all[n + i] == found->0);
    }
    if found is Some && first_found(first, probe, found) {
        let i = choose|i: int|
            0 <= i < first.len() && #[trigger] first[i] == found->0 && probed(
                probe,
                found->0,
                true,
            ) && forall|j: int| 0 <= j < i ==> probed(probe, #[trigger] first[j], false);
        assert(all[i] == found->0);
    }
}

proof fn lemma_flattened_is_in_a_list<P>(lists: Seq<Seq<P>>, i: int)
    requires
        0 <= i < lists.flatten().len(),
    ensures
        exists|k: int|
            0 <= k < lists.len() && (#[trigger] lists[k]).contains(lists.flatten()[i]),
    decreases lists.len(),
{
    let first = lists.first();
    let rest = lists.drop_first();
    if i < first.len() {
        assert(lists[0].contains(first[i]));
    } else {
        lemma_flattened_is_in_a_list(rest, i - first.len());
        let k = choose|k: int|
            0 <= k < rest.len() && (#[trigger] rest[k]).contains(rest.flatten()[i - first.len()]);
        assert(lists[k + 1].contains(lists.flatten()[i]));
    }
}

} // verus!
