//! Where a command is looked for, and what is found.

use crate::guarantees::files::{is_space, says_something};
#[allow(unused_imports)]
use crate::pathext::{
    candidates_with_endings, endings, executable_extensions, listed_endings, pieces, text_views,
    with_endings, without_dots,
};
#[allow(unused_imports)]
use crate::pyright::{
    executable, executable_candidates, first_executable, first_found, is_executable,
    place_stands_for, preflight_pyright, probed, resolve_basedpyright_command,
    resolve_command_in_paths, resolve_pyright_command, resolves_to, search_candidates, searches,
    stands_for,
};
use crate::pyright::{CommandError, CommandPath, FileStatus, Naming, PathRules};
#[allow(unused_imports)]
use crate::text::{blank, trimmed, trimmed_end, trimmed_start, white_space};
use vstd::prelude::*;

verus! {

/// Some texts with a separator between them.
pub open spec fn joined_by(texts: Seq<Seq<char>>, separator: char) -> Seq<char>
    decreases texts.len(),
{
    if texts.len() <= 1 {
        texts[0]
    } else {
        joined_by(texts.drop_last(), separator).push(separator) + texts.last()
    }
}

/// Whether `inner` is a text without the spaces around it.
pub open spec fn is_inner(text: Seq<char>, inner: Seq<char>) -> bool {
    exists|i: int, j: int|
        0 <= i <= j <= text.len() && #[trigger] text.subrange(i, j) == inner && (forall|k: int|
            0 <= k < i || j <= k < text.len() ==> is_space((#[trigger] text[k]) as int)) && (i < j
            ==> !is_space(text[i] as int) && !is_space(text[j - 1] as int))
}

/// Whether `rest` is a text without the dots before it.
pub open spec fn is_undotted(text: Seq<char>, rest: Seq<char>) -> bool {
    exists|i: int|
        0 <= i <= text.len() && #[trigger] text.skip(i) == rest && (forall|k: int|
            0 <= k < i ==> #[trigger] text[k] == '.') && (i < text.len() ==> text[i] != '.')
}

/// Whether `ending` is what a piece of a list names: the piece without the spaces around it and the
/// dots before it.
pub open spec fn is_ending(piece: Seq<char>, ending: Seq<char>) -> bool {
    exists|inner: Seq<char>| #[trigger] is_inner(piece, inner) && is_undotted(inner, ending)
}

/// Whether `named` are the endings that a list names, in their order: one for each piece between
/// semicolons that says something.
pub open spec fn names_endings(list: Seq<char>, named: Seq<Seq<char>>) -> bool {
    exists|parts: Seq<Seq<char>>|
        {
            &&& #[trigger] joined_by(parts, ';') == list
            &&& parts.len() > 0
            &&& forall|i: int| 0 <= i < parts.len() ==> !(#[trigger] parts[i]).contains(';')
            &&& ({
                let telling = parts.filter(|part: Seq<char>| says_something(part));
                &&& named.len() == telling.len()
                &&& forall|i: int|
                    0 <= i < telling.len() ==> is_ending(telling[i], #[trigger] named[i])
            })
        }
}

/// The list of endings that counts: what `PATHEXT` is set to, or the usual ones.
pub open spec fn counting_list(pathext: Option<String>) -> Seq<char> {
    match pathext {
        Some(list) => list@,
        None => ".COM;.EXE;.BAT;.CMD"@,
    }
}

/// Whether a path with this status can be run: there is a file, and its owner, its group or others
/// may run it where the system says who may.
pub open spec fn can_run(status: Option<FileStatus>) -> bool {
    match status {
        None => false,
        Some(status) => status.is_file && match status.mode {
            None => true,
            Some(mode) => mode & 0o100 != 0 || mode & 0o010 != 0 || mode & 0o001 != 0,
        },
    }
}

/// Whether `found` is the first of some candidates that run.
pub open spec fn is_first_that_runs<P>(
    candidates: Seq<P>,
    runs: spec_fn(P) -> bool,
    found: Option<P>,
) -> bool {
    match found {
        Some(candidate) => exists|i: int|
            0 <= i < candidates.len() && #[trigger] candidates[i] == candidate && runs(candidate)
                && forall|j: int| 0 <= j < i ==> !runs(#[trigger] candidates[j]),
        None => forall|j: int| 0 <= j < candidates.len() ==> !runs(#[trigger] candidates[j]),
    }
}

proof fn lemma_pieces_join(text: Seq<char>, separator: char)
    ensures
        pieces(text, separator).len() > 0,
        joined_by(pieces(text, separator), separator) == text,
        forall|i: int|
            0 <= i < pieces(text, separator).len() ==> !(#[trigger] pieces(
                text,
                separator,
            )[i]).contains(separator),
    decreases text.len(),
{
    let all = pieces(text, separator);
    if text.len() == 0 {
        assert(joined_by(all, separator) =~= text);
    } else {
        let shorter = text.drop_last();
        let earlier = pieces(shorter, separator);
        lemma_pieces_join(shorter, separator);
        assert(text =~= shorter.push(text.last()));
        if text.last() == separator {
            assert(all.drop_last() =~= earlier);
            assert(joined_by(all, separator) =~= text);
        } else {
            let grown = earlier.last().push(text.last());
            assert(all.drop_last() =~= earlier.drop_last());
            assert(joined_by(all, separator) =~= joined_by(earlier, separator).push(text.last()));
            assert forall|i: int| 0 <= i < all.len() implies !(#[trigger] all[i]).contains(
                separator,
            ) by {
                if i < all.len() - 1 {
                    assert(all[i] == earlier[i]);
                } else {
                    assert(!earlier[earlier.len() - 1].contains(separator));
                    assert forall|k: int| 0 <= k < grown.len() implies grown[k] != separator by {
                        if k < earlier.last().len() {
                            assert(earlier.last().contains(earlier.last()[k]));
                        }
                    }
                }
            }
        }
    }
}

proof fn lemma_trimmed_start(text: Seq<char>) -> (start: int)
    ensures
        0 <= start <= text.len(),
        trimmed_start(text) == text.skip(start),
        forall|k: int| 0 <= k < start ==> is_space((#[trigger] text[k]) as int),
        start < text.len() ==> !is_space(text[start] as int),
    decreases text.len(),
{
    if text.len() > 0 && white_space(text.first()) {
        let rest = text.drop_first();
        let start = lemma_trimmed_start(rest);
        assert(rest.skip(start) =~= text.skip(start + 1));
        assert forall|k: int| 0 <= k < start + 1 implies is_space((#[trigger] text[k]) as int) by {
            if k > 0 {
                assert(rest[k - 1] == text[k]);
            }
        }
        if start + 1 < text.len() {
            assert(rest[start] == text[start + 1]);
        }
        start + 1
    } else {
        assert(text.skip(0) =~= text);
        0
    }
}

proof fn lemma_trimmed_end(text: Seq<char>) -> (end: int)
    ensures
        0 <= end <= text.len(),
        trimmed_end(text) == text.take(end),
        forall|k: int| end <= k < text.len() ==> is_space((#[trigger] text[k]) as int),
        end > 0 ==> !is_space(text[end - 1] as int),
    decreases text.len(),
{
    if text.len() > 0 && white_space(text.last()) {
        let rest = text.drop_last();
        let end = lemma_trimmed_end(rest);
        assert(rest.take(end) =~= text.take(end));
        assert forall|k: int| end <= k < text.len() implies is_space(
            (#[trigger] text[k]) as int,
        ) by {
            if k < rest.len() {
                assert(rest[k] == text[k]);
            }
        }
        end
    } else {
        assert(text.take(text.len() as int) =~= text);
        text.len() as int
    }
}

proof fn lemma_trimmed_is_inner(text: Seq<char>)
    ensures
        is_inner(text, trimmed(text)),
{
    let start = lemma_trimmed_start(text);
    let rest = text.skip(start);
    let end = lemma_trimmed_end(rest);
    assert(text.subrange(start, start + end) =~= rest.take(end));
    assert forall|k: int|
        0 <= k < start || start + end <= k < text.len() implies is_space(
        (#[trigger] text[k]) as int,
    ) by {
        if k >= start + end {
            assert(rest[k - start] == text[k]);
        }
    }
    if end > 0 {
        assert(rest[end - 1] == text[start + end - 1]);
        if start == text.len() {
            assert(false);
        }
    }
}

proof fn lemma_without_dots(text: Seq<char>) -> (start: int)
    ensures
        0 <= start <= text.len(),
        without_dots(text) == text.skip(start),
        forall|k: int| 0 <= k < start ==> #[trigger] text[k] == '.',
        start < text.len() ==> text[start] != '.',
    decreases text.len(),
{
    if text.len() > 0 && text.first() == '.' {
        let rest = text.drop_first();
        let start = lemma_without_dots(rest);
        assert(rest.skip(start) =~= text.skip(start + 1));
        assert forall|k: int| 0 <= k < start + 1 implies #[trigger] text[k] == '.' by {
            if k > 0 {
                assert(rest[k - 1] == text[k]);
            }
        }
        if start + 1 < text.len() {
            assert(rest[start] == text[start + 1]);
        }
        start + 1
    } else {
        assert(text.skip(0) =~= text);
        0
    }
}

proof fn lemma_blank_says_nothing(text: Seq<char>)
    ensures
        blank(text) <==> !says_something(text),
{
    if says_something(text) {
        let i = choose|i: int| 0 <= i < text.len() && !is_space((#[trigger] text[i]) as int);
        assert(!white_space(text[i]));
    } else {
        assert forall|i: int| 0 <= i < text.len() implies white_space(#[trigger] text[i]) by {
            assert(is_space(text[i] as int));
        }
    }
}

proof fn lemma_listed_endings_are_named(list: Seq<char>)
    ensures
        names_endings(list, listed_endings(list)),
{
    let parts = pieces(list, ';');
    lemma_pieces_join(list, ';');
    let telling = parts.filter(|part: Seq<char>| says_something(part));
    let kept = |piece: Seq<char>| !blank(piece);
    assert forall|piece: Seq<char>| !blank(piece) == #[trigger] says_something(piece) by {
        lemma_blank_says_nothing(piece);
    }
    assert(kept =~= (|part: Seq<char>| says_something(part)));
    let named = listed_endings(list);
    assert forall|i: int| 0 <= i < telling.len() implies is_ending(
        telling[i],
        #[trigger] named[i],
    ) by {
        lemma_trimmed_is_inner(telling[i]);
        let inner = trimmed(telling[i]);
        let start = lemma_without_dots(inner);
        assert(is_undotted(inner, named[i]));
    }
    assert(joined_by(parts, ';') == list);
}

/// The endings to try are none where the path has one, and otherwise those that the list names.
pub proof fn law_endings_are_those_of_the_list(
    has_extension: bool,
    pathext: Option<String>,
    tried: Vec<String>,
)
    requires
        call_ensures(executable_extensions, (has_extension, pathext), tried),
    ensures
        has_extension ==> tried@.len() == 0,
        !has_extension ==> names_endings(
            counting_list(pathext),
            tried@.map_values(|ending: String| ending@),
        ),
{
    assert(text_views(tried@).len() == tried@.len());
    if !has_extension {
        lemma_listed_endings_are_named(counting_list(pathext));
        assert(text_views(tried@) =~= tried@.map_values(|ending: String| ending@));
    }
}

/// A path comes first, and then the path with each ending, in their order.
pub proof fn law_candidates_with_endings<P, F: Fn(&P, &String) -> P>(
    path: P,
    tried: &Vec<String>,
    with_extension: F,
    candidates: Vec<P>,
)
    requires
        call_ensures(candidates_with_endings::<P, F>, (path, tried, with_extension), candidates),
    ensures
        candidates@.len() == tried@.len() + 1,
        candidates@[0] == path,
        forall|i: int|
            0 < i < candidates@.len() ==> call_ensures(
                with_extension,
                (&path, &tried@[i - 1]),
                #[trigger] candidates@[i],
            ),
{
    assert forall|i: int| 0 < i < candidates@.len() implies call_ensures(
        with_extension,
        (&path, &tried@[i - 1]),
        #[trigger] candidates@[i],
    ) by {
        let ending = tried@[i - 1];
        assert(call_ensures(with_extension, (&path, &ending), candidates@[i - 1 + 1]));
    }
}

/// What a path to run stands for: itself; and, on a system that leaves endings out and where the
/// path has none, then the path with each ending that the list names.
pub proof fn law_executable_candidates<P, W: Fn(&P, &String) -> P>(
    path: P,
    has_extension: bool,
    naming: &Naming,
    with_extension: W,
    with: spec_fn(P, Seq<char>) -> P,
    candidates: Vec<P>,
)
    requires
        forall|path: P, ending: String, candidate: P| #[trigger]
            call_ensures(with_extension, (&path, &ending), candidate) ==> candidate == with(
                path,
                ending@,
            ),
        call_ensures(
            executable_candidates::<P, W>,
            (path, has_extension, naming, with_extension),
            candidates,
        ),
    ensures
        match naming {
            Naming::Exact => candidates@ == seq![path],
            Naming::Endings { pathext } => if has_extension {
                candidates@ == seq![path]
            } else {
                exists|named: Seq<Seq<char>>| #[trigger]
                    names_endings(counting_list(*pathext), named) && candidates@ == seq![path]
                        + named.map_values(|ending: Seq<char>| with(path, ending))
            },
        },
{
    lemma_stands_for(*naming, has_extension, with_extension, with, path, candidates@);
    if let Naming::Endings { pathext } = naming {
        let named = listed_endings(counting_list(*pathext));
        lemma_listed_endings_are_named(counting_list(*pathext));
        if !has_extension {
            assert(naming.endings(false) == named);
            assert(names_endings(counting_list(*pathext), named));
        }
    }
    if *naming is Exact || has_extension {
        assert(candidates@ =~= seq![path]);
    }
}

proof fn lemma_stands_for<P, W: Fn(&P, &String) -> P>(
    naming: Naming,
    has_extension: bool,
    with_extension: W,
    with: spec_fn(P, Seq<char>) -> P,
    path: P,
    candidates: Seq<P>,
)
    requires
        forall|path: P, ending: String, candidate: P| #[trigger]
            call_ensures(with_extension, (&path, &ending), candidate) ==> candidate == with(
                path,
                ending@,
            ),
        stands_for(naming, has_extension, with_extension, path, candidates),
    ensures
        candidates == seq![path] + naming.endings(has_extension).map_values(
            |ending: Seq<char>| with(path, ending),
        ),
{
    let named = naming.endings(has_extension);
    let tried = choose|tried: Seq<String>|
        #[trigger] text_views(tried) == named && with_endings(
            path,
            tried,
            with_extension,
            candidates,
        );
    let expected = seq![path] + named.map_values(|ending: Seq<char>| with(path, ending));
    assert(text_views(tried).len() == tried.len());
    assert forall|i: int| 0 <= i < candidates.len() implies candidates[i] == expected[i] by {
        if i > 0 {
            let ending = tried[i - 1];
            assert(text_views(tried)[i - 1] == ending@);
            assert(call_ensures(with_extension, (&path, &ending), candidates[i - 1 + 1]));
        }
    }
    assert(candidates =~= expected);
}

/// A path can be run exactly if there is a file that someone may run.
pub proof fn law_is_executable(status: Option<FileStatus>, result: bool)
    requires
        call_ensures(is_executable, (status,), result),
    ensures
        result <==> can_run(status),
{
    lemma_executable_can_run(status);
}

proof fn lemma_executable_can_run(status: Option<FileStatus>)
    ensures
        executable(status) <==> can_run(status),
{
    if let Some(status) = status {
        if let Some(mode) = status.mode {
            assert(mode & 0o111 != 0 <==> (mode & 0o100 != 0 || mode & 0o010 != 0 || mode & 0o001
                != 0)) by (bit_vector);
        }
    }
}

proof fn lemma_first_found<P, F: Fn(&P) -> Option<FileStatus>>(
    candidates: Seq<P>,
    probe: F,
    runs: spec_fn(P) -> bool,
    found: Option<P>,
)
    requires
        forall|candidate: P, status: Option<FileStatus>| #[trigger]
            call_ensures(probe, (&candidate,), status) ==> can_run(status) == runs(candidate),
        first_found(candidates, probe, found),
    ensures
        is_first_that_runs(candidates, runs, found),
{
    assert forall|candidate: P, outcome: bool| #[trigger]
        probed(probe, candidate, outcome) implies runs(candidate) == outcome by {
        let status = choose|status: Option<FileStatus>|
            #[trigger] call_ensures(probe, (&candidate,), status) && executable(status) == outcome;
        lemma_executable_can_run(status);
    }
    match found {
        Some(candidate) => {
            let i = choose|i: int|
                0 <= i < candidates.len() && #[trigger] candidates[i] == candidate && probed(
                    probe,
                    candidate,
                    true,
                ) && forall|j: int| 0 <= j < i ==> probed(probe, #[trigger] candidates[j], false);
            assert(candidates[i] == candidate);
        },
        None => {},
    }
}

/// The first candidate that runs is found, and nothing where none does.
pub proof fn law_first_executable<P, F: Fn(&P) -> Option<FileStatus>>(
    candidates: Vec<P>,
    probe: F,
    runs: spec_fn(P) -> bool,
    found: Option<P>,
)
    requires
        forall|candidate: P, status: Option<FileStatus>| #[trigger]
            call_ensures(probe, (&candidate,), status) ==> can_run(status) == runs(candidate),
        call_ensures(first_executable::<P, F>, (candidates, probe), found),
    ensures
        is_first_that_runs(candidates@, runs, found),
{
    lemma_first_found(candidates@, probe, runs, found);
}

/// What a system always answers about paths: how it reads the command, where the command is in a
/// directory, whether a path has an ending, and what it is with one.
#[verifier::reject_recursive_types(P)]
pub ghost struct Answers<P> {
    pub read: CommandPath<P>,
    pub join: spec_fn(P) -> P,
    pub has_extension: spec_fn(P) -> bool,
    pub with_extension: spec_fn(P, Seq<char>) -> P,
}

/// Whether the rules of a system give these answers.
pub open spec fn always_answer<P, R, J, H, W>(
    rules: PathRules<R, J, H, W>,
    command: &str,
    given: Answers<P>,
) -> bool where
    R: Fn(&str) -> CommandPath<P>,
    J: Fn(&P, &str) -> P,
    H: Fn(&P) -> bool,
    W: Fn(&P, &String) -> P,
 {
    &&& forall|read: CommandPath<P>| #[trigger]
        call_ensures(rules.read, (command,), read) ==> read == given.read
    &&& forall|directory: P, path: P| #[trigger]
        call_ensures(rules.join, (&directory, command), path) ==> path == (given.join)(directory)
    &&& forall|path: P, extended: bool| #[trigger]
        call_ensures(rules.has_extension, (&path,), extended) ==> extended == (
        given.has_extension)(path)
    &&& forall|path: P, ending: String, candidate: P| #[trigger]
        call_ensures(rules.with_extension, (&path, &ending), candidate) ==> candidate == (
        given.with_extension)(path, ending@)
}

/// Where a command is looked for: at its own path if that is absolute or has several components,
/// else in each directory.
pub open spec fn places_of<P>(given: Answers<P>, paths: Seq<P>) -> Seq<P> {
    if given.read.absolute || given.read.components >= 2 {
        seq![given.read.path]
    } else {
        paths.map_values(|directory: P| (given.join)(directory))
    }
}

/// What a place stands for, where the endings left out are `named`.
pub open spec fn candidates_of<P>(given: Answers<P>, named: Seq<Seq<char>>, place: P) -> Seq<P> {
    if (given.has_extension)(place) {
        seq![place]
    } else {
        seq![place] + named.map_values(|ending: Seq<char>| (given.with_extension)(place, ending))
    }
}

/// Every path that a command may be at, in order.
pub open spec fn all_candidates<P>(
    given: Answers<P>,
    named: Seq<Seq<char>>,
    paths: Seq<P>,
) -> Seq<P> {
    places_of(given, paths).map_values(|place: P| candidates_of(given, named, place)).flatten()
}

/// Whether `named` are the endings that a system leaves out.
pub open spec fn leaves_out(naming: Naming, named: Seq<Seq<char>>) -> bool {
    match naming {
        Naming::Exact => named.len() == 0,
        Naming::Endings { pathext } => names_endings(counting_list(pathext), named),
    }
}

proof fn lemma_searches<P, R, J, H, W>(
    rules: PathRules<R, J, H, W>,
    command: &str,
    paths: Seq<P>,
    given: Answers<P>,
    read: CommandPath<P>,
    places: Seq<P>,
    lists: Seq<Seq<P>>,
) where
    R: Fn(&str) -> CommandPath<P>,
    J: Fn(&P, &str) -> P,
    H: Fn(&P) -> bool,
    W: Fn(&P, &String) -> P,

    requires
        always_answer(rules, command, given),
        searches(rules, command, paths, read, places, lists),
    ensures
        leaves_out(rules.naming, rules.naming.endings(false)),
        lists.flatten() == all_candidates(given, rules.naming.endings(false), paths),
{
    let named = rules.naming.endings(false);
    if let Naming::Endings { pathext } = rules.naming {
        lemma_listed_endings_are_named(counting_list(pathext));
        assert(named == listed_endings(counting_list(pathext)));
    }
    let expected = places_of(given, paths);
    assert(places =~= expected) by {
        if !(read.absolute || read.components >= 2) {
            assert forall|i: int| 0 <= i < paths.len() implies places[i] == (given.join)(
                #[trigger] paths[i],
            ) by {
                assert(call_ensures(rules.join, (&paths[i], command), places[i]));
            }
        }
    }
    let wanted = expected.map_values(|place: P| candidates_of(given, named, place));
    assert forall|i: int| 0 <= i < places.len() implies #[trigger] lists[i] == wanted[i] by {
        let place = places[i];
        assert(place_stands_for(rules, place, lists[i]));
        let extended = choose|extended: bool|
            #[trigger] call_ensures(rules.has_extension, (&place,), extended) && stands_for(
                rules.naming,
                extended,
                rules.with_extension,
                place,
                lists[i],
            );
        lemma_stands_for(
            rules.naming,
            extended,
            rules.with_extension,
            given.with_extension,
            place,
            lists[i],
        );
        if extended {
            assert(rules.naming.endings(true).len() == 0);
            assert(lists[i] =~= seq![place]);
        }
    }
    assert(lists =~= wanted);
}

/// A search lists the candidates of each place where the command is looked for, one place after the
/// other.
pub proof fn law_search_candidates<P, R, J, H, W>(
    command: &str,
    paths: &Vec<P>,
    rules: &PathRules<R, J, H, W>,
    given: Answers<P>,
    candidates: Vec<P>,
) where
    R: Fn(&str) -> CommandPath<P>,
    J: Fn(&P, &str) -> P,
    H: Fn(&P) -> bool,
    W: Fn(&P, &String) -> P,

    requires
        always_answer(*rules, command, given),
        call_ensures(search_candidates::<P, R, J, H, W>, (command, paths, rules), candidates),
    ensures
        exists|named: Seq<Seq<char>>| #[trigger]
            leaves_out(rules.naming, named) && candidates@ == all_candidates(given, named, paths@),
{
    let (read, places, lists) = choose|
        read: CommandPath<P>,
        places: Seq<P>,
        lists: Seq<Seq<P>>,
    |
        #[trigger] searches(*rules, command, paths@, read, places, lists) && candidates@
            == lists.flatten();
    lemma_searches(*rules, command, paths@, given, read, places, lists);
    assert(leaves_out(rules.naming, rules.naming.endings(false)));
}

/// Looking for a command finds the first of its candidates that runs.
pub proof fn law_resolve_command_in_paths<P, R, J, H, W, F>(
    command: &str,
    paths: &Vec<P>,
    rules: &PathRules<R, J, H, W>,
    probe: F,
    given: Answers<P>,
    runs: spec_fn(P) -> bool,
    found: Option<P>,
) where
    R: Fn(&str) -> CommandPath<P>,
    J: Fn(&P, &str) -> P,
    H: Fn(&P) -> bool,
    W: Fn(&P, &String) -> P,
    F: Fn(&P) -> Option<FileStatus>,

    requires
        always_answer(*rules, command, given),
        forall|candidate: P, status: Option<FileStatus>| #[trigger]
            call_ensures(probe, (&candidate,), status) ==> can_run(status) == runs(candidate),
        call_ensures(
            resolve_command_in_paths::<P, R, J, H, W, F>,
            (command, paths, rules, probe),
            found,
        ),
    ensures
        exists|named: Seq<Seq<char>>| #[trigger]
            leaves_out(rules.naming, named) && is_first_that_runs(
                all_candidates(given, named, paths@),
                runs,
                found,
            ),
{
    lemma_resolves(*rules, command, paths@, probe, given, runs, found);
}

proof fn lemma_resolves<P, R, J, H, W, F>(
    rules: PathRules<R, J, H, W>,
    command: &str,
    paths: Seq<P>,
    probe: F,
    given: Answers<P>,
    runs: spec_fn(P) -> bool,
    found: Option<P>,
) where
    R: Fn(&str) -> CommandPath<P>,
    J: Fn(&P, &str) -> P,
    H: Fn(&P) -> bool,
    W: Fn(&P, &String) -> P,
    F: Fn(&P) -> Option<FileStatus>,

    requires
        always_answer(rules, command, given),
        forall|candidate: P, status: Option<FileStatus>| #[trigger]
            call_ensures(probe, (&candidate,), status) ==> can_run(status) == runs(candidate),
        resolves_to(rules, command, paths, probe, found),
    ensures
        leaves_out(rules.naming, rules.naming.endings(false)),
        is_first_that_runs(
            all_candidates(given, rules.naming.endings(false), paths),
            runs,
            found,
        ),
{
    let (read, places, lists) = choose|
        read: CommandPath<P>,
        places: Seq<P>,
        lists: Seq<Seq<P>>,
    |
        #[trigger] searches(rules, command, paths, read, places, lists) && first_found(
            lists.flatten(),
            probe,
            found,
        );
    lemma_searches(rules, command, paths, given, read, places, lists);
    lemma_first_found(lists.flatten(), probe, runs, found);
}

/// A command passes exactly if one of its candidates runs; otherwise it is not on the path.
pub proof fn law_preflight_pyright<P, R, J, H, W, F>(
    command: &str,
    paths: &Vec<P>,
    rules: &PathRules<R, J, H, W>,
    probe: F,
    given: Answers<P>,
    runs: spec_fn(P) -> bool,
    result: Result<(), CommandError>,
) where
    R: Fn(&str) -> CommandPath<P>,
    J: Fn(&P, &str) -> P,
    H: Fn(&P) -> bool,
    W: Fn(&P, &String) -> P,
    F: Fn(&P) -> Option<FileStatus>,

    requires
        always_answer(*rules, command, given),
        forall|candidate: P, status: Option<FileStatus>| #[trigger]
            call_ensures(probe, (&candidate,), status) ==> can_run(status) == runs(candidate),
        call_ensures(
            preflight_pyright::<P, R, J, H, W, F>,
            (command, paths, rules, probe),
            result,
        ),
    ensures
        exists|named: Seq<Seq<char>>| #[trigger]
            leaves_out(rules.naming, named) && (result is Ok <==> exists|i: int|
                0 <= i < all_candidates(given, named, paths@).len() && runs(
                    #[trigger] all_candidates(given, named, paths@)[i],
                )),
{
    let found = choose|found: Option<P>|
        {
            &&& #[trigger] resolves_to(*rules, command, paths@, probe, found)
            &&& result == if found is Some {
                Ok::<(), CommandError>(())
            } else {
                Err(CommandError::NotOnPath)
            }
        };
    lemma_resolves(*rules, command, paths@, probe, given, runs, found);
    let named = rules.naming.endings(false);
    assert(leaves_out(rules.naming, named));
    let all = all_candidates(given, named, paths@);
    if let Some(candidate) = found {
        let i = choose|i: int|
            0 <= i < all.len() && #[trigger] all[i] == candidate && runs(candidate) && forall|
                j: int,
            |
                0 <= j < i ==> !runs(#[trigger] all[j]);
        assert(runs(all[i]));
    }
}

/// The command that is configured counts if it says something, as it is; otherwise the usual one
/// does.
pub proof fn law_resolve_commands(
    value: Option<String>,
    pyright: Result<String, CommandError>,
    basedpyright: Result<String, CommandError>,
)
    requires
        call_ensures(resolve_pyright_command, (value,), pyright),
        call_ensures(resolve_basedpyright_command, (value,), basedpyright),
    ensures
        pyright is Ok,
        basedpyright is Ok,
        ({
            let counts = value matches Some(command) && says_something(command@);
            &&& counts ==> pyright->Ok_0@ == value->0@ && basedpyright->Ok_0@ == value->0@
            &&& !counts ==> pyright->Ok_0@ == "pyright-langserver"@ && basedpyright->Ok_0@
                == "basedpyright-langserver"@
        }),
{
    if let Some(command) = value {
        lemma_blank_says_nothing(command@);
    }
}

/// What is said of a command that is not on the path.
pub proof fn law_command_errors_have_words(error: &CommandError, text: &'static str)
    requires
        call_ensures(CommandError::message, (error,), text),
    ensures
        text@
            == "pyright-langserver is not available on PATH. Install Pyright (e.g. `npm i -g pyright`) and ensure `pyright-langserver` is runnable, or set LSPI_PYRIGHT_COMMAND / LSPI_BASEDPYRIGHT_COMMAND."@,
{
}

} // verus!
