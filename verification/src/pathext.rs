//! The endings that make a file executable on Windows.

#[allow(unused_imports)]
use crate::text::{blank, trimmed};
use crate::text::is_blank;
use vstd::prelude::*;
use vstd::string::*;

verus! {

/// The pieces of a text between separators. There is always one more than there are separators.
pub open spec fn pieces(text: Seq<char>, separator: char) -> Seq<Seq<char>>
    decreases text.len(),
{
    if text.len() == 0 {
        seq![Seq::empty()]
    } else {
        let earlier = pieces(text.drop_last(), separator);
        if text.last() == separator {
            earlier.push(Seq::empty())
        } else {
            earlier.drop_last().push(earlier.last().push(text.last()))
        }
    }
}

/// The text without the dots that it begins with.
pub open spec fn without_dots(text: Seq<char>) -> Seq<char>
    decreases text.len(),
{
    if text.len() > 0 && text.first() == '.' {
        without_dots(text.drop_first())
    } else {
        text
    }
}

/// The endings that a list names: its pieces between semicolons that are not blank, without the
/// white space around them and the dots before them.
pub open spec fn listed_endings(list: Seq<char>) -> Seq<Seq<char>> {
    pieces(list, ';').filter(|piece: Seq<char>| !blank(piece)).map_values(
        |piece: Seq<char>| without_dots(trimmed(piece)),
    )
}

/// The endings to try on a path, when `list` is what `PATHEXT` is set to: none if it has one
/// already.
pub open spec fn endings(has_extension: bool, list: Option<Seq<char>>) -> Seq<Seq<char>> {
    if has_extension {
        Seq::empty()
    } else {
        listed_endings(
            match list {
                Some(list) => list,
                None => ".COM;.EXE;.BAT;.CMD"@,
            },
        )
    }
}

/// Texts as sequences.
pub open spec fn text_views(texts: Seq<String>) -> Seq<Seq<char>> {
    texts.map_values(|text: String| text@)
}

fn strip_dots(text: &str) -> (rest: String)
    ensures
        rest@ == without_dots(text@),
{
    let length: usize = text.unicode_len();
    let mut start: usize = 0;
    assert(text@.skip(0) =~= text@);
    while start < length && text.get_char(start) == '.'
        invariant
            length == text@.len(),
            start <= length,
            without_dots(text@) == without_dots(text@.skip(start as int)),
        decreases length - start,
    {
        assert(text@.skip(start as int).drop_first() =~= text@.skip(start + 1));
        start = start + 1;
    }
    let rest: &str = text.substring_char(start, length);
    assert(rest@ =~= text@.skip(start as int));
    rest.to_owned()
}

fn split(text: &str, separator: char) -> (result: Vec<String>)
    ensures
        text_views(result@) == pieces(text@, separator),
{
    let length: usize = text.unicode_len();
    let mut result: Vec<String> = Vec::new();
    let mut start: usize = 0;
    let mut i: usize = 0;
    assert(text@.take(0) =~= Seq::empty());
    assert(text_views(result@).push(text@.subrange(0, 0)) =~= pieces(text@.take(0), separator));
    while i < length
        invariant
            length == text@.len(),
            start <= i <= length,
            text_views(result@).push(text@.subrange(start as int, i as int)) == pieces(
                text@.take(i as int),
                separator,
            ),
        decreases length - i,
    {
        let ghost earlier = pieces(text@.take(i as int), separator);
        let ghost before = result@;
        let ghost open = text@.subrange(start as int, i as int);
        assert(text@.take(i + 1).drop_last() =~= text@.take(i as int));
        assert(text@.take(i + 1).last() == text@[i as int]);
        assert(earlier.last() == open);
        assert(earlier.drop_last() =~= text_views(before));
        if text.get_char(i) == separator {
            result.push(text.substring_char(start, i).to_owned());
            start = i + 1;
            assert(text_views(result@) =~= text_views(before).push(open));
            assert(text@.subrange(start as int, i + 1) =~= Seq::empty());
            assert(text_views(result@).push(Seq::empty()) =~= pieces(text@.take(i + 1), separator));
        } else {
            assert(text@.subrange(start as int, i + 1) =~= open.push(text@[i as int]));
        }
        i = i + 1;
    }
    let ghost before = result@;
    let ghost open = text@.subrange(start as int, i as int);
    result.push(text.substring_char(start, length).to_owned());
    assert(text@.take(length as int) =~= text@);
    assert(text_views(result@) =~= text_views(before).push(open));
    result
}

/// The endings to try on a path, in order. `has_extension` says whether the path has an ending
/// already, `pathext` what `PATHEXT` is set to.
pub fn executable_extensions(has_extension: bool, pathext: Option<String>) -> (result: Vec<String>)
    ensures
        text_views(result@) == endings(
            has_extension,
            match pathext {
                Some(list) => Some(list@),
                None => None,
            },
        ),
{
    let mut result: Vec<String> = Vec::new();
    if has_extension {
        assert(text_views(result@) =~= Seq::empty());
        return result;
    }
    let list: String = match pathext {
        Some(list) => list,
        None => ".COM;.EXE;.BAT;.CMD".to_owned(),
    };
    let listed: Vec<String> = split(list.as_str(), ';');
    let ghost all = text_views(listed@);
    let ghost wanted = |piece: Seq<char>| !blank(piece);
    let ghost ending = |piece: Seq<char>| without_dots(trimmed(piece));
    let mut i: usize = 0;
    proof {
        reveal(Seq::filter);
        assert(all.take(0) =~= Seq::empty());
        assert(text_views(result@) =~= all.take(0).filter(wanted).map_values(ending));
    }
    while i < listed.len()
        invariant
            i <= listed@.len(),
            all == text_views(listed@),
            wanted == (|piece: Seq<char>| !blank(piece)),
            ending == (|piece: Seq<char>| without_dots(trimmed(piece))),
            text_views(result@) == all.take(i as int).filter(wanted).map_values(ending),
        decreases listed@.len() - i,
    {
        let piece: &str = listed[i].as_str();
        let ghost before = result@;
        let ghost kept = all.take(i as int).filter(wanted);
        proof {
            reveal(Seq::filter);
            assert(all.take(i + 1).drop_last() =~= all.take(i as int));
            assert(all.take(i + 1).last() == piece@);
        }
        if !is_blank(piece) {
            result.push(strip_dots(piece.trim()));
            assert(all.take(i + 1).filter(wanted) == kept.push(piece@));
            assert(kept.push(piece@).map_values(ending) =~= kept.map_values(ending).push(
                ending(piece@),
            ));
            assert(text_views(result@) =~= text_views(before).push(ending(piece@)));
        }
        i = i + 1;
    }
    assert(all.take(all.len() as int) =~= all);
    result
}

/// Whether `candidates` are a path and then that path with each of the endings, in their order.
pub open spec fn with_endings<P, F: Fn(&P, &String) -> P>(
    path: P,
    endings: Seq<String>,
    with_extension: F,
    candidates: Seq<P>,
) -> bool {
    &&& candidates.len() == 1 + endings.len()
    &&& candidates[0] == path
    &&& forall|i: int|
        0 <= i < endings.len() ==> call_ensures(
            with_extension,
            (&path, &#[trigger] endings[i]),
            candidates[i + 1],
        )
}

/// Lists a path and then that path with each of the endings. `with_extension` says what a path is
/// with an ending.
pub fn candidates_with_endings<P, F: Fn(&P, &String) -> P>(
    path: P,
    endings: &Vec<String>,
    with_extension: F,
) -> (candidates: Vec<P>)
    requires
        forall|path: &P, ending: &String| call_requires(with_extension, (path, ending)),
    ensures
        with_endings(path, endings@, with_extension, candidates@),
{
    let mut candidates: Vec<P> = Vec::new();
    candidates.push(path);
    let mut i: usize = 0;
    while i < endings.len()
        invariant
            i <= endings@.len(),
            forall|path: &P, ending: &String| call_requires(with_extension, (path, ending)),
            with_endings(path, endings@.take(i as int), with_extension, candidates@),
        decreases endings@.len() - i,
    {
        let ghost earlier = candidates@;
        let candidate: P = with_extension(&candidates[0], &endings[i]);
        candidates.push(candidate);
        proof {
            let seen = endings@.take(i + 1);
            assert forall|j: int| 0 <= j < seen.len() implies call_ensures(
                with_extension,
                (&path, &#[trigger] seen[j]),
                candidates@[j + 1],
            ) by {
                if j < i {
                    assert(endings@.take(i as int)[j] == seen[j]);
                    assert(candidates@[j + 1] == earlier[j + 1]);
                }
            }
        }
        i = i + 1;
    }
    assert(endings@.take(endings@.len() as int) =~= endings@);
    candidates
}

} // verus!
