//! Where a received file is put: below the receive directory, through real
//! directories only, and under a name that nothing else has.

use super::filesystem::SafePath;
use super::identifiers::uuid_text;
use crate::error::{ErrorModel, TransferError};
use crate::text::{characters, decimal_text, find_last, text_between};
use vstd::prelude::*;
use vstd::string::*;

verus! {

/// How many names are tried for one file, and how often its place is contested.
pub const MAX_ATTEMPTS: u32 = 10_000;

/// What stands behind the number in a numbered name: the extension with its dot.
pub open spec fn name_tail(name: Seq<char>) -> Seq<char> {
    match super::filesystem::extension_of(name) {
        Some(extension) => seq!['.'] + extension,
        None => Seq::empty(),
    }
}

/// The name that is tried at an attempt: first the file's own, then the file's
/// own with the number of the attempt before its extension.
pub open spec fn candidate(name: Seq<char>, attempt: nat) -> Seq<char> {
    if attempt == 0 {
        name
    } else {
        super::filesystem::stem_of(name) + " ("@ + crate::text::decimal(attempt) + ")"@
            + name_tail(name)
    }
}

proof fn name_is_stem_and_tail(name: Seq<char>)
    ensures
        name == super::filesystem::stem_of(name) + name_tail(name),
{
    crate::text::last_index_is_last(name, '.');
    assert(name =~= super::filesystem::stem_of(name) + name_tail(name));
}

/// No two attempts try the same name.
pub proof fn candidates_are_distinct(name: Seq<char>, left: nat, right: nat)
    requires
        candidate(name, left) == candidate(name, right),
    ensures
        left == right,
{
    reveal_strlit(" (");
    reveal_strlit(")");
    name_is_stem_and_tail(name);
    let stem = super::filesystem::stem_of(name);
    let tail = name_tail(name);
    crate::text::decimal_is_unique(left, right);
    crate::text::decimal_is_unique(right, left);
    if left != 0 && right != 0 {
        let from = stem.len() + 2int;
        let first = crate::text::decimal(left);
        let second = crate::text::decimal(right);
        let one = candidate(name, left);
        let other = candidate(name, right);
        assert(one.len() == stem.len() + 2 + first.len() + 1 + tail.len());
        assert(other.len() == stem.len() + 2 + second.len() + 1 + tail.len());
        assert(one.subrange(from, from + first.len()) =~= first);
        assert(other.subrange(from, from + second.len()) =~= second);
    }
}

/// A name without a separator leads only to names without a separator, and
/// none of the numbered ones means a directory: the file stays where it is put.
pub proof fn candidates_stay_in_the_directory(name: Seq<char>, attempt: nat)
    requires
        !name.contains('/'),
    ensures
        !candidate(name, attempt).contains('/'),
        attempt > 0 ==> candidate(name, attempt) != "."@ && candidate(name, attempt) != ".."@
            && candidate(name, attempt).len() > 0,
{
    reveal_strlit(" (");
    reveal_strlit(")");
    reveal_strlit(".");
    reveal_strlit("..");
    name_is_stem_and_tail(name);
    crate::text::decimal_is_unique(attempt, attempt);
    let stem = super::filesystem::stem_of(name);
    let tail = name_tail(name);
    let number = crate::text::decimal(attempt);
    let made = candidate(name, attempt);
    if attempt > 0 {
        assert(made.len() > 2);
        assert forall|place: int| 0 <= place < made.len() implies made[place] != '/' by {
            if place < stem.len() {
                assert(made[place] == name[place]);
            } else if place < stem.len() + 2 {
                assert(made[place] == " ("@[place - stem.len()]);
            } else if place < stem.len() + 2 + number.len() {
                assert(made[place] == number[place - stem.len() - 2]);
            } else if place == stem.len() + 2 + number.len() {
                assert(made[place] == ')');
            } else {
                let behind = place - stem.len() - 2 - number.len() - 1;
                assert(made[place] == tail[behind]);
                assert(name[stem.len() + behind] == tail[behind]);
            }
        }
    }
}

/// The name to try at an attempt.
pub fn destination_name(name: &str, attempt: u32) -> (result: String)
    ensures
        result@ == candidate(name@, attempt as nat),
{
    if attempt == 0 {
        return name.to_owned();
    }
    let all = characters(name);
    let end = all.len();
    let split = match find_last(&all, '.') {
        Some(place) => if place > 0 {
            place
        } else {
            end
        },
        None => end,
    };
    let mut result = text_between(&all, 0, split);
    proof {
        crate::text::last_index_is_last(all@, '.');
        assert(result@ =~= super::filesystem::stem_of(name@));
    }
    result.append(" (");
    result.append(decimal_text(attempt as u64).as_str());
    result.append(")");
    let tail = text_between(&all, split, end);
    assert(tail@ =~= name_tail(name@));
    result.append(tail.as_str());
    result
}

/// Whether a question about a name may have been answered so.
pub open spec fn answered<F: Fn(&str) -> bool>(
    question: F,
    name: Seq<char>,
    answer: bool,
) -> bool {
    exists|text: &str| text@ == name && #[trigger] question.ensures((text,), answer)
}

/// The answers that a question about names may get.
pub open spec fn answers<F: Fn(&str) -> bool>(question: F) -> spec_fn(Seq<char>, bool) -> bool {
    |name: Seq<char>, answer: bool| answered(question, name, answer)
}

/// Whether a result is the first of a file's possible names that nothing has,
/// as far as the answers about them go; or that each of them is taken.
pub open spec fn first_free(
    name: Seq<char>,
    taken: spec_fn(Seq<char>, bool) -> bool,
    result: Result<String, TransferError>,
) -> bool {
    match result {
        Ok(chosen) => exists|attempt: nat|
            #![trigger candidate(name, attempt)]
            {
                &&& attempt < MAX_ATTEMPTS
                &&& chosen@ == candidate(name, attempt)
                &&& taken(chosen@, false)
                &&& forall|earlier: nat|
                    earlier < attempt ==> taken(#[trigger] candidate(name, earlier), true)
            },
        Err(error) => {
            &&& error@ == ErrorModel::Invalid("cannot choose unique destination"@)
            &&& forall|attempt: nat|
                attempt < MAX_ATTEMPTS ==> taken(#[trigger] candidate(name, attempt), true)
        },
    }
}

/// The first of the file's possible names that nothing has yet. `is_taken` says
/// whether something has a name already.
pub fn free_name<F: Fn(&str) -> bool>(name: &str, is_taken: F) -> (result: Result<
    String,
    TransferError,
>)
    requires
        forall|tried: &str| #[trigger] is_taken.requires((tried,)),
    ensures
        first_free(name@, answers(is_taken), result),
{
    let ghost taken_as = answers(is_taken);
    let mut attempt: u32 = 0;
    while attempt < MAX_ATTEMPTS
        invariant
            attempt <= MAX_ATTEMPTS,
            taken_as == answers(is_taken),
            forall|tried: &str| #[trigger] is_taken.requires((tried,)),
            forall|earlier: nat|
                earlier < attempt ==> taken_as(#[trigger] candidate(name@, earlier), true),
        decreases MAX_ATTEMPTS - attempt,
    {
        let chosen = destination_name(name, attempt);
        let tried = chosen.as_str();
        let taken = is_taken(tried);
        assert(answered(is_taken, tried@, taken));
        assert(taken_as(tried@, taken));
        if !taken {
            assert(chosen@ == candidate(name@, attempt as nat));
            return Ok(chosen);
        }
        attempt += 1;
    }
    Err(TransferError::invalid("cannot choose unique destination"))
}

/// What a directory entry is, without following it.
#[derive(Debug, PartialEq, Eq)]
pub enum EntryKind {
    /// A directory, and no link to one.
    Directory,
    /// A link, a file or anything else.
    Other,
    /// Nothing; with the text of the failed lookup.
    Missing(String),
}

/// What comes of one directory on the way to a file: it is there, or it is made
/// and is there afterwards; or why it cannot be passed. The receive directory
/// itself is not made.
pub open spec fn passage(
    at_root: bool,
    first: Result<EntryKind, TransferError>,
    made: Result<(), TransferError>,
    second: Result<EntryKind, TransferError>,
) -> Result<(), ErrorModel> {
    match first {
        Ok(EntryKind::Directory) => Ok(()),
        Ok(EntryKind::Other) => Err(
            ErrorModel::Invalid(
                if at_root {
                    "receive directory must be a normal directory"@
                } else {
                    "destination contains a symlink or non-directory"@
                },
            ),
        ),
        Ok(EntryKind::Missing(text)) => if at_root {
            Err(ErrorModel::Io(text@))
        } else {
            match made {
                Ok(_) => match second {
                    Ok(EntryKind::Directory) => Ok(()),
                    Ok(EntryKind::Other) => Err(
                        ErrorModel::Invalid("destination directory changed while receiving"@),
                    ),
                    Ok(EntryKind::Missing(text)) => Err(ErrorModel::Io(text@)),
                    Err(error) => Err(error@),
                },
                Err(error) => Err(error@),
            }
        },
        Err(error) => Err(error@),
    }
}

/// What comes of one directory on the way to a file. `first` is what a look at
/// its entry showed. Where that was nothing, `made` is what came of making the
/// directory, and `second` what a look showed after it was made; elsewhere they
/// count for nothing.
pub fn pass_directory(
    at_root: bool,
    first: Result<EntryKind, TransferError>,
    made: Result<(), TransferError>,
    second: Result<EntryKind, TransferError>,
) -> (result: Result<(), TransferError>)
    ensures
        crate::error::outcome(result) == passage(at_root, first, made, second),
{
    match first {
        Ok(EntryKind::Directory) => Ok(()),
        Ok(EntryKind::Other) => if at_root {
            Err(TransferError::invalid("receive directory must be a normal directory"))
        } else {
            Err(TransferError::invalid("destination contains a symlink or non-directory"))
        },
        Ok(EntryKind::Missing(text)) => if at_root {
            Err(TransferError::Io(text))
        } else {
            match made {
                Ok(_) => match second {
                    Ok(EntryKind::Directory) => Ok(()),
                    Ok(EntryKind::Other) => Err(
                        TransferError::invalid("destination directory changed while receiving"),
                    ),
                    Ok(EntryKind::Missing(text)) => Err(TransferError::Io(text)),
                    Err(error) => Err(error),
                },
                Err(error) => Err(error),
            }
        },
        Err(error) => Err(error),
    }
}

/// What looks at entries may show. The flag tells the second look at an entry,
/// after it was made, from the first.
pub open spec fn looks<I: Fn(usize, bool) -> Result<EntryKind, TransferError>>(
    inspect: I,
) -> spec_fn(usize, bool, Result<EntryKind, TransferError>) -> bool {
    |depth: usize, again: bool, seen: Result<EntryKind, TransferError>|
        inspect.ensures((depth, again), seen)
}

/// What may come of making directories.
pub open spec fn makings<C: Fn(usize) -> Result<(), TransferError>>(create: C) -> spec_fn(
    usize,
    Result<(), TransferError>,
) -> bool {
    |depth: usize, made: Result<(), TransferError>| create.ensures((depth,), made)
}

/// Whether a directory is made where a look showed that: nothing is there, and
/// it is not the receive directory itself.
pub open spec fn calls_for_making(depth: usize, seen: Result<EntryKind, TransferError>) -> bool {
    depth > 0 && seen matches Ok(EntryKind::Missing(_))
}

/// Whether these may have been the look at the entry at a depth, what came of
/// making it and the look after that, as far as they were called for.
pub open spec fn observed(
    seen: spec_fn(usize, bool, Result<EntryKind, TransferError>) -> bool,
    made: spec_fn(usize, Result<(), TransferError>) -> bool,
    depth: usize,
    first: Result<EntryKind, TransferError>,
    making: Result<(), TransferError>,
    second: Result<EntryKind, TransferError>,
) -> bool {
    &&& seen(depth, false, first)
    &&& calls_for_making(depth, first) ==> {
        &&& made(depth, making)
        &&& making is Ok ==> seen(depth, true, second)
    }
}

/// Whether that may have come of the directory at a depth.
pub open spec fn met(
    seen: spec_fn(usize, bool, Result<EntryKind, TransferError>) -> bool,
    made: spec_fn(usize, Result<(), TransferError>) -> bool,
    depth: usize,
    result: Result<(), ErrorModel>,
) -> bool {
    exists|
        first: Result<EntryKind, TransferError>,
        making: Result<(), TransferError>,
        second: Result<EntryKind, TransferError>,
    | #[trigger]
        observed(seen, made, depth, first, making, second) && passage(
            depth == 0,
            first,
            making,
            second,
        ) == result
}

/// Whether every directory above a depth was there or was made.
pub open spec fn way_open(
    seen: spec_fn(usize, bool, Result<EntryKind, TransferError>) -> bool,
    made: spec_fn(usize, Result<(), TransferError>) -> bool,
    depth: int,
) -> bool {
    forall|above: usize|
        above < depth ==> #[trigger] met(seen, made, above, Ok::<(), ErrorModel>(()))
}

/// Whether a directory is to be made at a depth: every directory above it was
/// there or was made, and a look may have shown nothing there.
pub open spec fn reached(
    seen: spec_fn(usize, bool, Result<EntryKind, TransferError>) -> bool,
    made: spec_fn(usize, Result<(), TransferError>) -> bool,
    depth: usize,
) -> bool {
    &&& way_open(seen, made, depth as int)
    &&& exists|first: Result<EntryKind, TransferError>| #[trigger]
        seen(depth, false, first) && calls_for_making(depth, first)
}

/// Whether a directory that was made is to be looked at.
pub open spec fn reached_again(
    seen: spec_fn(usize, bool, Result<EntryKind, TransferError>) -> bool,
    made: spec_fn(usize, Result<(), TransferError>) -> bool,
    depth: usize,
) -> bool {
    &&& reached(seen, made, depth)
    &&& exists|making: Result<(), TransferError>| #[trigger] made(depth, making) && making is Ok
}

/// Whether the way to the end of a path failed with that error, at the first
/// directory that was not there and was not made.
pub open spec fn way_blocked(
    path: Seq<Seq<char>>,
    seen: spec_fn(usize, bool, Result<EntryKind, TransferError>) -> bool,
    made: spec_fn(usize, Result<(), TransferError>) -> bool,
    error: TransferError,
) -> bool {
    exists|depth: usize|
        depth < path.len() && way_open(seen, made, depth as int) && #[trigger] met(
            seen,
            made,
            depth,
            Err::<(), _>(error@),
        )
}

/// Whether nothing is in the way to the end of a path: the receive directory is
/// a real one, every other directory is a real one or missing, each that is
/// missing can be made, and is a real directory then.
pub open spec fn way_can_be_made(
    path: Seq<Seq<char>>,
    seen: spec_fn(usize, bool, Result<EntryKind, TransferError>) -> bool,
    made: spec_fn(usize, Result<(), TransferError>) -> bool,
) -> bool {
    &&& forall|depth: usize, again: bool, shown: Result<EntryKind, TransferError>|
        depth < path.len() && #[trigger] seen(depth, again, shown) ==> {
            ||| shown matches Ok(EntryKind::Directory)
            ||| !again && calls_for_making(depth, shown)
        }
    &&& forall|depth: usize, making: Result<(), TransferError>|
        depth < path.len() && #[trigger] made(depth, making) ==> making is Ok
}

/// Makes the directories that a path leads through, below the receive
/// directory, and refuses to go through anything but real directories.
///
/// Depth zero is the receive directory itself, depth `n` the directory that the
/// first `n` components lead to. `inspect` looks at the entry at a depth
/// without following it, with a flag that is set after the directory there was
/// made; `create` makes a directory. Nothing is looked at or made behind
/// anything but real directories. A directory is made only where a look showed
/// nothing, and it is looked at again before the way goes on.
pub fn create_safe_directories<
    I: Fn(usize, bool) -> Result<EntryKind, TransferError>,
    C: Fn(usize) -> Result<(), TransferError>,
>(path: &SafePath, inspect: I, create: C) -> (result: Result<(), TransferError>)
    requires
        path.wf(),
        forall|depth: usize|
            depth < path@.len() && way_open(looks(inspect), makings(create), depth as int)
                ==> #[trigger] inspect.requires((depth, false)),
        forall|depth: usize|
            depth < path@.len() && reached(looks(inspect), makings(create), depth) ==> #[trigger]
            create.requires((depth,)),
        forall|depth: usize|
            depth < path@.len() && reached_again(looks(inspect), makings(create), depth)
                ==> #[trigger] inspect.requires((depth, true)),
    ensures
        match result {
            Ok(()) => way_open(looks(inspect), makings(create), path@.len() as int),
            Err(error) => way_blocked(path@, looks(inspect), makings(create), error),
        },
        way_can_be_made(path@, looks(inspect), makings(create)) ==> result is Ok,
{
    let ghost seen_as = looks(inspect);
    let ghost made_as = makings(create);
    let end = path.len();
    let mut depth: usize = 0;
    while depth < end
        invariant
            depth <= end == path@.len(),
            seen_as == looks(inspect),
            made_as == makings(create),
            forall|depth: usize|
                depth < path@.len() && way_open(seen_as, made_as, depth as int) ==> #[trigger]
                inspect.requires((depth, false)),
            forall|depth: usize|
                depth < path@.len() && reached(seen_as, made_as, depth) ==> #[trigger]
                create.requires((depth,)),
            forall|depth: usize|
                depth < path@.len() && reached_again(seen_as, made_as, depth) ==> #[trigger]
                inspect.requires((depth, true)),
            way_open(seen_as, made_as, depth as int),
        decreases end - depth,
    {
        let first = inspect(depth, false);
        assert(seen_as(depth, false, first));
        let missing = match &first {
            Ok(EntryKind::Missing(_)) => true,
            _ => false,
        };
        let mut made: Result<(), TransferError> = Ok(());
        let mut second: Result<EntryKind, TransferError> = Ok(EntryKind::Directory);
        if missing && depth > 0 {
            assert(calls_for_making(depth, first));
            made = create(depth);
            assert(made_as(depth, made));
            if made.is_ok() {
                assert(reached_again(seen_as, made_as, depth));
                second = inspect(depth, true);
                assert(seen_as(depth, true, second));
            }
        }
        assert(observed(seen_as, made_as, depth, first, made, second));
        match pass_directory(depth == 0, first, made, second) {
            Ok(()) => {
                assert(met(seen_as, made_as, depth, Ok::<(), ErrorModel>(())));
            },
            Err(error) => {
                assert(met(seen_as, made_as, depth, Err::<(), _>(error@)));
                return Err(error);
            },
        }
        depth += 1;
    }
    Ok(())
}

/// Whether a result is where a file may be put at the end of a path: the way
/// there is open and the name is the first free one; or why there is none.
pub open spec fn destined(
    path: Seq<Seq<char>>,
    seen: spec_fn(usize, bool, Result<EntryKind, TransferError>) -> bool,
    made: spec_fn(usize, Result<(), TransferError>) -> bool,
    taken: spec_fn(Seq<char>, bool) -> bool,
    result: Result<String, TransferError>,
) -> bool {
    ||| way_open(seen, made, path.len() as int) && first_free(path.last(), taken, result)
    ||| result matches Err(error) && way_blocked(path, seen, made, error)
}

/// The name under which a file is put at the end of its path: the directories
/// that the path leads through are made first, and then the first of the file's
/// possible names is taken that nothing in the last of them has. `inspect`,
/// `create` and `is_taken` are as for [`create_safe_directories`] and
/// [`free_name`]; names are asked about only once the way there is open.
pub fn unique_destination<
    I: Fn(usize, bool) -> Result<EntryKind, TransferError>,
    C: Fn(usize) -> Result<(), TransferError>,
    F: Fn(&str) -> bool,
>(path: &SafePath, inspect: I, create: C, is_taken: F) -> (result: Result<String, TransferError>)
    requires
        path.wf(),
        forall|depth: usize|
            depth < path@.len() && way_open(looks(inspect), makings(create), depth as int)
                ==> #[trigger] inspect.requires((depth, false)),
        forall|depth: usize|
            depth < path@.len() && reached(looks(inspect), makings(create), depth) ==> #[trigger]
            create.requires((depth,)),
        forall|depth: usize|
            depth < path@.len() && reached_again(looks(inspect), makings(create), depth)
                ==> #[trigger] inspect.requires((depth, true)),
        forall|tried: &str|
            way_open(looks(inspect), makings(create), path@.len() as int) ==> #[trigger]
            is_taken.requires((tried,)),
    ensures
        destined(path@, looks(inspect), makings(create), answers(is_taken), result),
        way_can_be_made(path@, looks(inspect), makings(create)) ==> first_free(
            path@.last(),
            answers(is_taken),
            result,
        ),
{
    match create_safe_directories(path, inspect, create) {
        Ok(()) => free_name(path.name(), is_taken),
        Err(error) => Err(error),
    }
}

/// What came of giving a staged file its final name.
#[derive(Debug, PartialEq, Eq)]
pub enum LinkOutcome {
    Linked,
    /// Something else took the name first.
    Occupied,
    Failed(TransferError),
}

/// What looks at entries may show at an attempt.
pub open spec fn looks_at<I: Fn(u32, usize, bool) -> Result<EntryKind, TransferError>>(
    inspect: I,
    attempt: u32,
) -> spec_fn(usize, bool, Result<EntryKind, TransferError>) -> bool {
    |depth: usize, again: bool, seen: Result<EntryKind, TransferError>|
        inspect.ensures((attempt, depth, again), seen)
}

/// What may come of making directories at an attempt.
pub open spec fn makings_at<C: Fn(u32, usize) -> Result<(), TransferError>>(
    create: C,
    attempt: u32,
) -> spec_fn(usize, Result<(), TransferError>) -> bool {
    |depth: usize, made: Result<(), TransferError>| create.ensures((attempt, depth), made)
}

/// The answers that a question about names may get at an attempt.
pub open spec fn answers_at<F: Fn(u32, &str) -> bool>(question: F, attempt: u32) -> spec_fn(
    Seq<char>,
    bool,
) -> bool {
    |name: Seq<char>, answer: bool|
        exists|text: &str| text@ == name && #[trigger] question.ensures((attempt, text), answer)
}

/// Whether an attempt may have found that destination for a file.
pub open spec fn picked<
    I: Fn(u32, usize, bool) -> Result<EntryKind, TransferError>,
    C: Fn(u32, usize) -> Result<(), TransferError>,
    F: Fn(u32, &str) -> bool,
>(
    path: Seq<Seq<char>>,
    inspect: I,
    create: C,
    is_taken: F,
    attempt: u32,
    result: Result<String, TransferError>,
) -> bool {
    destined(
        path,
        looks_at(inspect, attempt),
        makings_at(create, attempt),
        answers_at(is_taken, attempt),
        result,
    )
}

/// Whether an attempt chose a name that was taken before it could be claimed.
pub open spec fn lost<
    I: Fn(u32, usize, bool) -> Result<EntryKind, TransferError>,
    C: Fn(u32, usize) -> Result<(), TransferError>,
    F: Fn(u32, &str) -> bool,
    L: Fn(u32, &String) -> LinkOutcome,
>(path: Seq<Seq<char>>, inspect: I, create: C, is_taken: F, link: L, attempt: u32) -> bool {
    exists|name: String| #[trigger]
        picked(path, inspect, create, is_taken, attempt, Ok(name)) && link.ensures(
            (attempt, &name),
            LinkOutcome::Occupied,
        )
}

/// Whether every attempt before that one was lost.
pub open spec fn contested<
    I: Fn(u32, usize, bool) -> Result<EntryKind, TransferError>,
    C: Fn(u32, usize) -> Result<(), TransferError>,
    F: Fn(u32, &str) -> bool,
    L: Fn(u32, &String) -> LinkOutcome,
>(path: Seq<Seq<char>>, inspect: I, create: C, is_taken: F, link: L, attempts: int) -> bool {
    forall|attempt: u32|
        attempt < attempts ==> #[trigger] lost(path, inspect, create, is_taken, link, attempt)
}

proof fn wider_way_is_open(
    seen: spec_fn(usize, bool, Result<EntryKind, TransferError>) -> bool,
    made: spec_fn(usize, Result<(), TransferError>) -> bool,
    more_seen: spec_fn(usize, bool, Result<EntryKind, TransferError>) -> bool,
    more_made: spec_fn(usize, Result<(), TransferError>) -> bool,
)
    requires
        forall|depth: usize, again: bool, shown: Result<EntryKind, TransferError>| #[trigger]
            seen(depth, again, shown) ==> more_seen(depth, again, shown),
        forall|depth: usize, making: Result<(), TransferError>| #[trigger]
            made(depth, making) ==> more_made(depth, making),
    ensures
        forall|depth: usize, result: Result<(), ErrorModel>| #[trigger]
            met(seen, made, depth, result) ==> met(more_seen, more_made, depth, result),
        forall|depth: int| #[trigger]
            way_open(seen, made, depth) ==> way_open(more_seen, more_made, depth),
        forall|depth: usize| #[trigger]
            reached(seen, made, depth) ==> reached(more_seen, more_made, depth),
        forall|depth: usize| #[trigger]
            reached_again(seen, made, depth) ==> reached_again(more_seen, more_made, depth),
{
    assert forall|depth: usize, result: Result<(), ErrorModel>| #[trigger]
        met(seen, made, depth, result) implies met(more_seen, more_made, depth, result) by {
        let (first, making, second) = choose|
            first: Result<EntryKind, TransferError>,
            making: Result<(), TransferError>,
            second: Result<EntryKind, TransferError>,
        | #[trigger]
            observed(seen, made, depth, first, making, second) && passage(
                depth == 0,
                first,
                making,
                second,
            ) == result;
        assert(observed(more_seen, more_made, depth, first, making, second));
    }
    assert forall|depth: int| #[trigger] way_open(seen, made, depth) implies way_open(
        more_seen,
        more_made,
        depth,
    ) by {
        assert forall|above: usize| above < depth implies #[trigger] met(
            more_seen,
            more_made,
            above,
            Ok::<(), ErrorModel>(()),
        ) by {
            assert(met(seen, made, above, Ok::<(), ErrorModel>(())));
        }
    }
    assert forall|depth: usize| #[trigger] reached(seen, made, depth) implies reached(
        more_seen,
        more_made,
        depth,
    ) by {
        let first = choose|first: Result<EntryKind, TransferError>| #[trigger]
            seen(depth, false, first) && calls_for_making(depth, first);
        assert(more_seen(depth, false, first));
        assert(way_open(seen, made, depth as int));
    }
}

/// Gives a staged file its final name at the end of its path. At each attempt
/// the directories are made and a free name is found as
/// [`unique_destination`] does, and `link` claims that name; where something
/// else took the name in between, the next attempt looks anew. `inspect`,
/// `create` and `is_taken` are as there, and all four are told the number of
/// the attempt. No name is claimed but one that was found free at that attempt.
pub fn finalize_staged<
    I: Fn(u32, usize, bool) -> Result<EntryKind, TransferError>,
    C: Fn(u32, usize) -> Result<(), TransferError>,
    F: Fn(u32, &str) -> bool,
    L: Fn(u32, &String) -> LinkOutcome,
>(path: &SafePath, inspect: I, create: C, is_taken: F, link: L) -> (result: Result<
    String,
    TransferError,
>)
    requires
        path.wf(),
        forall|attempt: u32, depth: usize|
            depth < path@.len() && way_open(
                looks_at(inspect, attempt),
                makings_at(create, attempt),
                depth as int,
            ) ==> #[trigger] inspect.requires((attempt, depth, false)),
        forall|attempt: u32, depth: usize|
            depth < path@.len() && reached(
                looks_at(inspect, attempt),
                makings_at(create, attempt),
                depth,
            ) ==> #[trigger] create.requires((attempt, depth)),
        forall|attempt: u32, depth: usize|
            depth < path@.len() && reached_again(
                looks_at(inspect, attempt),
                makings_at(create, attempt),
                depth,
            ) ==> #[trigger] inspect.requires((attempt, depth, true)),
        forall|attempt: u32, tried: &str|
            way_open(
                looks_at(inspect, attempt),
                makings_at(create, attempt),
                path@.len() as int,
            ) ==> #[trigger] is_taken.requires((attempt, tried)),
        forall|attempt: u32, name: String| #[trigger]
            picked(path@, inspect, create, is_taken, attempt, Ok(name)) ==> link.requires(
                (attempt, &name),
            ),
    ensures
        match result {
            Ok(name) => exists|attempt: u32|
                {
                    &&& attempt < MAX_ATTEMPTS
                    &&& contested(path@, inspect, create, is_taken, link, attempt as int)
                    &&& #[trigger] picked(path@, inspect, create, is_taken, attempt, Ok(name))
                    &&& link.ensures((attempt, &name), LinkOutcome::Linked)
                },
            Err(error) => {
                ||| exists|attempt: u32|
                    {
                        &&& attempt < MAX_ATTEMPTS
                        &&& contested(path@, inspect, create, is_taken, link, attempt as int)
                        &&& #[trigger] picked(
                            path@,
                            inspect,
                            create,
                            is_taken,
                            attempt,
                            Err(error),
                        )
                    }
                ||| exists|attempt: u32, name: String|
                    {
                        &&& attempt < MAX_ATTEMPTS
                        &&& contested(path@, inspect, create, is_taken, link, attempt as int)
                        &&& #[trigger] picked(path@, inspect, create, is_taken, attempt, Ok(name))
                        &&& link.ensures((attempt, &name), LinkOutcome::Failed(error))
                    }
                ||| contested(path@, inspect, create, is_taken, link, MAX_ATTEMPTS as int)
                    && error@ == ErrorModel::Invalid("cannot atomically finalize received file"@)
            },
        },
        way_can_be_made(path@, looks_at(inspect, 0), makings_at(create, 0)) && (forall|
            name: String,
            claim: LinkOutcome,
        | #[trigger]
            link.ensures((0u32, &name), claim) ==> claim == LinkOutcome::Linked) ==> first_free(
            path@.last(),
            answers_at(is_taken, 0),
            result,
        ),
{
    let mut attempt: u32 = 0;
    while attempt < MAX_ATTEMPTS
        invariant
            attempt <= MAX_ATTEMPTS,
            path.wf(),
            forall|attempt: u32, depth: usize|
                depth < path@.len() && way_open(
                    looks_at(inspect, attempt),
                    makings_at(create, attempt),
                    depth as int,
                ) ==> #[trigger] inspect.requires((attempt, depth, false)),
            forall|attempt: u32, depth: usize|
                depth < path@.len() && reached(
                    looks_at(inspect, attempt),
                    makings_at(create, attempt),
                    depth,
                ) ==> #[trigger] create.requires((attempt, depth)),
            forall|attempt: u32, depth: usize|
                depth < path@.len() && reached_again(
                    looks_at(inspect, attempt),
                    makings_at(create, attempt),
                    depth,
                ) ==> #[trigger] inspect.requires((attempt, depth, true)),
            forall|attempt: u32, tried: &str|
                way_open(
                    looks_at(inspect, attempt),
                    makings_at(create, attempt),
                    path@.len() as int,
                ) ==> #[trigger] is_taken.requires((attempt, tried)),
            forall|attempt: u32, name: String| #[trigger]
                picked(path@, inspect, create, is_taken, attempt, Ok(name)) ==> link.requires(
                    (attempt, &name),
                ),
            contested(path@, inspect, create, is_taken, link, attempt as int),
            attempt > 0 ==> exists|name: String|
                link.ensures((0u32, &name), LinkOutcome::Occupied),
        decreases MAX_ATTEMPTS - attempt,
    {
        let chosen = destination_at(path, attempt, &inspect, &create, &is_taken);
        match chosen {
            Ok(name) => {
                match link(attempt, &name) {
                    LinkOutcome::Linked => {
                        return Ok(name);
                    },
                    LinkOutcome::Occupied => {
                        assert(lost(path@, inspect, create, is_taken, link, attempt));
                    },
                    LinkOutcome::Failed(error) => {
                        return Err(error);
                    },
                }
            },
            Err(error) => {
                return Err(error);
            },
        }
        attempt += 1;
    }
    Err(TransferError::invalid("cannot atomically finalize received file"))
}

fn destination_at<
    I: Fn(u32, usize, bool) -> Result<EntryKind, TransferError>,
    C: Fn(u32, usize) -> Result<(), TransferError>,
    F: Fn(u32, &str) -> bool,
>(path: &SafePath, attempt: u32, inspect: &I, create: &C, is_taken: &F) -> (result: Result<
    String,
    TransferError,
>)
    requires
        path.wf(),
        forall|depth: usize|
            depth < path@.len() && way_open(
                looks_at(*inspect, attempt),
                makings_at(*create, attempt),
                depth as int,
            ) ==> #[trigger] inspect.requires((attempt, depth, false)),
        forall|depth: usize|
            depth < path@.len() && reached(
                looks_at(*inspect, attempt),
                makings_at(*create, attempt),
                depth,
            ) ==> #[trigger] create.requires((attempt, depth)),
        forall|depth: usize|
            depth < path@.len() && reached_again(
                looks_at(*inspect, attempt),
                makings_at(*create, attempt),
                depth,
            ) ==> #[trigger] inspect.requires((attempt, depth, true)),
        forall|tried: &str|
            way_open(
                looks_at(*inspect, attempt),
                makings_at(*create, attempt),
                path@.len() as int,
            ) ==> #[trigger] is_taken.requires((attempt, tried)),
    ensures
        picked(path@, *inspect, *create, *is_taken, attempt, result),
        way_can_be_made(path@, looks_at(*inspect, attempt), makings_at(*create, attempt))
            ==> first_free(path@.last(), answers_at(*is_taken, attempt), result),
{
    let look = |depth: usize, again: bool| -> (seen: Result<EntryKind, TransferError>)
        requires
            inspect.requires((attempt, depth, again)),
        ensures
            inspect.ensures((attempt, depth, again), seen),
        { inspect(attempt, depth, again) };
    let make = |depth: usize| -> (made: Result<(), TransferError>)
        requires
            create.requires((attempt, depth)),
        ensures
            create.ensures((attempt, depth), made),
        { create(attempt, depth) };
    let ask = |tried: &str| -> (taken: bool)
        requires
            is_taken.requires((attempt, tried)),
        ensures
            is_taken.ensures((attempt, tried), taken),
        { is_taken(attempt, tried) };
    let ghost seen_as = looks_at(*inspect, attempt);
    let ghost made_as = makings_at(*create, attempt);
    let ghost taken_as = answers_at(*is_taken, attempt);
    let ghost told = answers(ask);
    proof {
        wider_way_is_open(looks(look), makings(make), seen_as, made_as);
        assert forall|name: Seq<char>, answer: bool| #[trigger] told(name, answer) implies taken_as(
            name,
            answer,
        ) by {
            let text = choose|text: &str|
                text@ == name && #[trigger] ask.ensures((text,), answer);
            assert(is_taken.ensures((attempt, text), answer));
        }
    }
    let result = unique_destination(path, look, make, ask);
    proof {
        if first_free(path@.last(), told, result) {
            assert(first_free(path@.last(), taken_as, result));
        }
    }
    result
}

/// A received file stays below the receive directory, under a name that was
/// free: where a destination is found for it at the end of a safe path, the way
/// there leads through directories that are real ones, the name is the file's
/// own or that with a number, and nothing had it when it was asked about.
pub proof fn received_file_stays_below(
    directory: Seq<Seq<char>>,
    text: Seq<char>,
    seen: spec_fn(usize, bool, Result<EntryKind, TransferError>) -> bool,
    made: spec_fn(usize, Result<(), TransferError>) -> bool,
    taken: spec_fn(Seq<char>, bool) -> bool,
    name: String,
)
    requires
        super::filesystem::safe_path(text),
        destined(crate::text::pieces(text, '/'), seen, made, taken, Ok(name)),
    ensures
        way_open(seen, made, crate::text::pieces(text, '/').len() as int),
        taken(name@, false),
        !name@.contains('/'),
        super::filesystem::followed(
            directory,
            crate::text::pieces(text, '/').drop_last().push(name@),
        ) == directory + crate::text::pieces(text, '/').drop_last().push(name@),
{
    let path = crate::text::pieces(text, '/');
    let front = path.drop_last();
    let number = choose|number: nat|
        #![trigger candidate(path.last(), number)]
        {
            &&& number < MAX_ATTEMPTS
            &&& name@ == candidate(path.last(), number)
            &&& taken(name@, false)
            &&& forall|earlier: nat|
                earlier < number ==> taken(#[trigger] candidate(path.last(), earlier), true)
        };
    crate::text::pieces_assemble_to_the_text(text, '/');
    assert(path.last() == path[path.len() - 1]);
    candidates_stay_in_the_directory(path.last(), number);
    super::filesystem::safe_path_stays_below(directory, text);
    super::filesystem::safe_components_stay_below(directory, front);
    assert(front.push(name@).drop_last() =~= front);
    assert(directory + front.push(name@) =~= (directory + front).push(name@));
}

/// The name of the file in which a received file is staged.
pub open spec fn staged_as(transfer_id: u64, file_id: u64, unique: Seq<char>) -> Seq<char> {
    crate::text::decimal(transfer_id as nat) + "-"@ + crate::text::decimal(file_id as nat) + "-"@
        + unique + ".part"@
}

/// The name of the file in which a received file is staged. `unique` tells it
/// apart from every other attempt to receive that file.
pub fn staging_file_name(transfer_id: u64, file_id: u64, unique: &str) -> (name: String)
    ensures
        name@ == staged_as(transfer_id, file_id, unique@),
{
    decimal_text(transfer_id).concat("-").concat(decimal_text(file_id).as_str()).concat(
        "-",
    ).concat(unique).concat(".part")
}

/// A staged file lies in the directory for staged files itself: its name holds
/// no separator.
pub proof fn staged_files_stay_in_their_directory(
    transfer_id: u64,
    file_id: u64,
    unique: Seq<char>,
)
    requires
        uuid_text(unique),
    ensures
        !staged_as(transfer_id, file_id, unique).contains('/'),
{
    reveal_strlit("-");
    reveal_strlit(".part");
    let first = crate::text::decimal(transfer_id as nat);
    let second = crate::text::decimal(file_id as nat);
    crate::text::decimal_is_unique(transfer_id as nat, transfer_id as nat);
    crate::text::decimal_is_unique(file_id as nat, file_id as nat);
    let name = staged_as(transfer_id, file_id, unique);
    let dash = first.len() as int;
    let start = dash + 1 + second.len() + 1;
    assert forall|place: int| 0 <= place < name.len() implies #[trigger] name[place] != '/' by {
        if place < dash {
            assert(name[place] == first[place]);
        } else if dash < place < start - 1 {
            assert(name[place] == second[place - dash - 1]);
        } else if start <= place < start + 36 {
            assert(name[place] == unique[place - start]);
        }
    }
}

/// Attempts to receive that drew different UUIDs are staged in different files,
/// whichever files they receive.
pub proof fn attempts_are_staged_apart(
    transfer_id: u64,
    file_id: u64,
    unique: Seq<char>,
    other_transfer_id: u64,
    other_file_id: u64,
    other_unique: Seq<char>,
)
    requires
        uuid_text(unique),
        uuid_text(other_unique),
        unique != other_unique,
    ensures
        staged_as(transfer_id, file_id, unique) != staged_as(
            other_transfer_id,
            other_file_id,
            other_unique,
        ),
{
    reveal_strlit("-");
    reveal_strlit(".part");
    let name = staged_as(transfer_id, file_id, unique);
    let other = staged_as(other_transfer_id, other_file_id, other_unique);
    let front = name.len() - 41;
    assert(name.subrange(front, front + 36) =~= unique);
    if name == other {
        assert(other.subrange(front, front + 36) =~= other_unique);
    }
}

/// Whether a directory may be received into: it is a directory, and no link to
/// one.
pub fn check_receive_directory(kind: &EntryKind) -> (result: Result<(), TransferError>)
    ensures
        crate::error::outcome(result) == (if *kind is Directory {
            Ok::<(), ErrorModel>(())
        } else {
            Err(ErrorModel::Invalid("receive directory must be a regular directory"@))
        }),
{
    match kind {
        EntryKind::Directory => Ok(()),
        _ => Err(TransferError::invalid("receive directory must be a regular directory")),
    }
}

/// The number that tells a file from another of its name stands before the
/// extension; the first attempt is the file's own name.
pub proof fn the_number_stands_before_the_extension(
    stem: Seq<char>,
    extension: Seq<char>,
    attempt: nat,
)
    requires
        stem.len() > 0,
        !extension.contains('.'),
    ensures
        candidate(stem + "."@ + extension, 0) == stem + "."@ + extension,
        attempt > 0 ==> candidate(stem + "."@ + extension, attempt) == stem + " ("@
            + crate::text::decimal(attempt) + ")"@ + "."@ + extension,
{
    reveal_strlit(".");
    let name = stem + "."@ + extension;
    crate::text::last_index_is_last(name, '.');
    let dot = stem.len() as int;
    assert(name[dot] == '.');
    assert forall|place: int| dot < place < name.len() implies name[place] != '.' by {
        assert(name[place] == extension[place - dot - 1]);
    }
    name_is_stem_and_tail(name);
    assert(super::filesystem::stem_of(name) =~= stem);
    assert(name_tail(name) =~= "."@ + extension);
    if attempt > 0 {
        assert(candidate(name, attempt) =~= stem + " ("@ + crate::text::decimal(attempt) + ")"@
            + "."@ + extension);
    }
}

/// The number stands behind a name without an extension, as behind one whose
/// only dot comes first.
pub proof fn the_number_stands_behind_a_bare_name(name: Seq<char>, attempt: nat)
    requires
        forall|place: int| 0 < place < name.len() ==> name[place] != '.',
    ensures
        candidate(name, 0) == name,
        attempt > 0 ==> candidate(name, attempt) == name + " ("@ + crate::text::decimal(attempt)
            + ")"@,
{
    crate::text::last_index_is_last(name, '.');
    name_is_stem_and_tail(name);
    assert(name_tail(name) =~= Seq::empty());
    assert(super::filesystem::stem_of(name) =~= name);
    if attempt > 0 {
        assert(candidate(name, attempt) =~= name + " ("@ + crate::text::decimal(attempt) + ")"@);
    }
}

/// A file keeps its name where nothing has it, and otherwise gets the first
/// numbered name that nothing has; only where ten thousand names are taken does
/// it get none.
pub proof fn the_first_free_name_is_chosen(
    name: Seq<char>,
    taken: spec_fn(Seq<char>, bool) -> bool,
    result: Result<String, TransferError>,
    attempt: nat,
)
    requires
        first_free(name, taken, result),
        forall|earlier: nat| earlier < attempt ==> !taken(#[trigger] candidate(name, earlier), false),
    ensures
        attempt < 10_000 && !taken(candidate(name, attempt), true) ==> (result matches Ok(chosen)
            && chosen@ == candidate(name, attempt)),
        !taken(name, true) ==> (result matches Ok(chosen) && chosen@ == name),
        attempt == 10_000 ==> (result matches Err(error) && error@ is Invalid),
        result matches Ok(chosen) ==> taken(chosen@, false),
{
    assert(candidate(name, 0) == name);
    if result is Ok {
        let found = choose|found: nat|
            #![trigger candidate(name, found)]
            {
                &&& found < MAX_ATTEMPTS
                &&& result->Ok_0@ == candidate(name, found)
                &&& taken(result->Ok_0@, false)
                &&& forall|earlier: nat|
                    earlier < found ==> taken(#[trigger] candidate(name, earlier), true)
            };
        assert(found < attempt ==> !taken(candidate(name, found), false));
        assert(attempt < found ==> taken(candidate(name, attempt), true));
        assert(0 < found ==> taken(candidate(name, 0), true));
    } else {
        assert(attempt < MAX_ATTEMPTS ==> taken(candidate(name, attempt), true));
        assert(taken(candidate(name, 0), true));
    }
}

/// A directory on the way is passed just where it is a real one, or where
/// nothing was there below the receive directory, it was made and is a real one
/// since. What failed on the way is the failure.
pub proof fn only_real_directories_are_passed(
    at_root: bool,
    first: Result<EntryKind, TransferError>,
    made: Result<(), TransferError>,
    second: Result<EntryKind, TransferError>,
)
    ensures
        passage(at_root, first, made, second) is Ok <==> {
            ||| first matches Ok(EntryKind::Directory)
            ||| !at_root && first is Ok && first->Ok_0 is Missing && made is Ok && second is Ok
                && second->Ok_0 is Directory
        },
        first matches Ok(EntryKind::Other) ==> (passage(at_root, first, made, second) matches Err(
            error,
        ) && error is Invalid),
        first matches Err(error) ==> passage(at_root, first, made, second) == Err::<(), _>(error@),
        at_root && first is Ok && first->Ok_0 is Missing ==> (passage(
            at_root,
            first,
            made,
            second,
        ) matches Err(error) && error is Io),
        !at_root && first is Ok && first->Ok_0 is Missing && made is Err ==> passage(
            at_root,
            first,
            made,
            second,
        ) == Err::<(), _>(made->Err_0@),
        !at_root && first is Ok && first->Ok_0 is Missing && made is Ok && second is Ok
            && second->Ok_0 is Other ==> (passage(at_root, first, made, second) matches Err(error)
            && error is Invalid),
        !at_root && first is Ok && first->Ok_0 is Missing && made is Ok && second is Err ==> passage(
            at_root,
            first,
            made,
            second,
        ) == Err::<(), _>(second->Err_0@),
{
}

/// No file gets through a link, or anything else that is no directory, wherever
/// on its way that is; nor into a receive directory that is not there.
pub proof fn a_link_on_the_way_stops_the_file(
    path: Seq<Seq<char>>,
    seen: spec_fn(usize, bool, Result<EntryKind, TransferError>) -> bool,
    made: spec_fn(usize, Result<(), TransferError>) -> bool,
    taken: spec_fn(Seq<char>, bool) -> bool,
    result: Result<String, TransferError>,
    depth: usize,
)
    requires
        destined(path, seen, made, taken, result),
        depth < path.len(),
        forall|shown: Result<EntryKind, TransferError>| #[trigger]
            seen(depth, false, shown) ==> {
                ||| shown matches Ok(EntryKind::Other)
                ||| depth == 0 && shown matches Ok(EntryKind::Missing(_))
            },
    ensures
        result is Err,
{
    if result is Ok {
        assert(way_open(seen, made, path.len() as int));
        assert(met(seen, made, depth, Ok::<(), ErrorModel>(())));
        let (first, making, second) = choose|
            first: Result<EntryKind, TransferError>,
            making: Result<(), TransferError>,
            second: Result<EntryKind, TransferError>,
        | #[trigger]
            observed(seen, made, depth, first, making, second) && passage(
                depth == 0,
                first,
                making,
                second,
            ) == Ok::<(), ErrorModel>(());
        assert(seen(depth, false, first));
    }
}

/// The name of a staged file tells which file of which transfer it is: it begins
/// with the number of the transfer and ends in `.part`, and no other file has it.
pub proof fn files_are_staged_apart(
    transfer_id: u64,
    file_id: u64,
    unique: Seq<char>,
    other_transfer_id: u64,
    other_file_id: u64,
    other_unique: Seq<char>,
)
    requires
        uuid_text(unique),
        uuid_text(other_unique),
        staged_as(transfer_id, file_id, unique) == staged_as(
            other_transfer_id,
            other_file_id,
            other_unique,
        ),
    ensures
        transfer_id == other_transfer_id,
        file_id == other_file_id,
        unique == other_unique,
        ".part"@.is_suffix_of(staged_as(transfer_id, file_id, unique)),
        crate::text::decimal(transfer_id as nat).is_prefix_of(
            staged_as(transfer_id, file_id, unique),
        ),
{
    if unique != other_unique {
        attempts_are_staged_apart(
            transfer_id,
            file_id,
            unique,
            other_transfer_id,
            other_file_id,
            other_unique,
        );
    }
    reveal_strlit("-");
    reveal_strlit(".part");
    let first = crate::text::decimal(transfer_id as nat);
    let second = crate::text::decimal(file_id as nat);
    let other_first = crate::text::decimal(other_transfer_id as nat);
    let other_second = crate::text::decimal(other_file_id as nat);
    crate::text::decimal_is_unique(transfer_id as nat, other_transfer_id as nat);
    crate::text::decimal_is_unique(other_transfer_id as nat, transfer_id as nat);
    crate::text::decimal_is_unique(file_id as nat, other_file_id as nat);
    crate::text::decimal_is_unique(other_file_id as nat, file_id as nat);
    let name = staged_as(transfer_id, file_id, unique);
    let other = staged_as(other_transfer_id, other_file_id, other_unique);
    assert(name[first.len() as int] == '-');
    assert(other[other_first.len() as int] == '-');
    if first.len() < other_first.len() {
        assert(other[first.len() as int] == other_first[first.len() as int]);
    }
    if other_first.len() < first.len() {
        assert(name[other_first.len() as int] == first[other_first.len() as int]);
    }
    assert(name.subrange(0, first.len() as int) =~= first);
    assert(other.subrange(0, other_first.len() as int) =~= other_first);
    let from = first.len() + 1int;
    assert(name.subrange(from, from + second.len()) =~= second);
    assert(other.subrange(from, from + other_second.len()) =~= other_second);
    assert(name.subrange(name.len() - 5, name.len() as int) =~= ".part"@);
}

} // verus!
