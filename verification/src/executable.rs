//! Which of a build's files is the game.

use vstd::prelude::*;
use vstd::string::*;

use crate::paths;
use crate::text;

verus! {

// ---------------------------------------------------------------------------
// What counts as the game
// ---------------------------------------------------------------------------

/// A file that the platform can run, by its lower-cased name.
pub open spec fn runs_on(lower: Seq<char>, platform: Seq<char>) -> bool {
    if platform == "win"@ {
        ".exe"@.is_suffix_of(lower)
    } else if platform == "mac"@ {
        ".app"@.is_suffix_of(lower) || !lower.contains('.')
    } else {
        !lower.contains('.')
    }
}

/// An installer, an uninstaller, a redistributable or a crash handler, by its
/// lower-cased name.
pub open spec fn is_incidental(lower: Seq<char>) -> bool {
    ||| text::has_piece(lower, "unins"@)
    ||| text::has_piece(lower, "vcredist"@)
    ||| text::has_piece(lower, "dxsetup"@)
    ||| text::has_piece(lower, "crashpad"@)
    ||| text::has_piece(lower, "setup.exe"@)
}

/// A file that may be the game, by its lower-cased name.
pub open spec fn may_be_the_game(lower: Seq<char>, platform: Seq<char>) -> bool {
    runs_on(lower, platform) && !is_incidental(lower)
}

/// How many directories deep a file lies.
pub open spec fn depth(file: Seq<char>) -> nat {
    text::occurrences(file, '/')
}

/// The position `i` holds the first of the shallowest files that `good` marks.
pub open spec fn is_shallowest(files: Seq<Seq<char>>, good: Seq<bool>, i: int) -> bool {
    &&& 0 <= i < files.len()
    &&& good[i]
    &&& forall|j: int|
        0 <= j < files.len() && #[trigger] good[j] ==> depth(files[i]) <= depth(files[j]) && (j < i
            ==> depth(files[i]) < depth(files[j]))
}

/// Which of the files may be the game.
pub open spec fn marked(files: Seq<Seq<char>>, platform: Seq<char>) -> Seq<bool> {
    files.map_values(|file: Seq<char>| may_be_the_game(text::lowercase_of(file), platform))
}

/// `game` is the file to run: the first of the shallowest that may be the game, or
/// `None` where none of them may.
pub open spec fn is_pick(
    game: Option<Seq<char>>,
    files: Seq<Seq<char>>,
    platform: Seq<char>,
) -> bool {
    match game {
        Some(file) => exists|i: int|
            #![trigger files[i]]
            is_shallowest(files, marked(files, platform), i) && file == files[i],
        None => forall|i: int| 0 <= i < files.len() ==> !#[trigger] marked(files, platform)[i],
    }
}

// ---------------------------------------------------------------------------
// Picking it
// ---------------------------------------------------------------------------

/// Whether the platform can run a file of this lower-cased name.
pub fn can_run_on(lower: &str, platform: &str) -> (yes: bool)
    ensures
        yes == runs_on(lower@, platform@),
{
    if text::same_text(platform, "win") {
        text::finishes_with(lower, ".exe")
    } else if text::same_text(platform, "mac") {
        text::finishes_with(lower, ".app") || !text::holds_char(lower, '.')
    } else {
        !text::holds_char(lower, '.')
    }
}

/// Whether a file of this lower-cased name is not the game itself but comes along
/// with it.
pub fn comes_along(lower: &str) -> (yes: bool)
    ensures
        yes == is_incidental(lower@),
{
    text::holds_piece(lower, "unins") || text::holds_piece(lower, "vcredist") || text::holds_piece(
        lower,
        "dxsetup",
    ) || text::holds_piece(lower, "crashpad") || text::holds_piece(lower, "setup.exe")
}

/// Whether a file of this lower-cased name may be the game.
pub fn is_candidate(lower: &str, platform: &str) -> (yes: bool)
    ensures
        yes == may_be_the_game(lower@, platform@),
{
    can_run_on(lower, platform) && !comes_along(lower)
}

/// The first of the shallowest files that `good` marks.
pub fn shallowest(files: &[String], good: &Vec<bool>) -> (best: Option<usize>)
    requires
        good.len() == files.len(),
    ensures
        match best {
            Some(i) => is_shallowest(text::texts(files@), good@, i as int),
            None => forall|i: int| 0 <= i < good.len() ==> !good[i],
        },
{
    let mut best: Option<(usize, usize)> = None;
    for i in 0..files.len()
        invariant
            good.len() == files.len(),
            match best {
                Some((least, at)) => {
                    &&& at < i
                    &&& good[at as int]
                    &&& least == depth(text::texts(files@)[at as int])
                    &&& forall|j: int|
                        0 <= j < i && #[trigger] good[j] ==> least <= depth(text::texts(files@)[j]) && (
                        j < at ==> least < depth(text::texts(files@)[j]))
                },
                None => forall|j: int| 0 <= j < i ==> !good[j],
            },
    {
        if good[i] {
            let here: usize = text::count_char(files[i].as_str(), '/');
            let better = match best {
                Some((least, _)) => here < least,
                None => true,
            };
            if better {
                best = Some((here, i));
            }
        }
    }
    match best {
        Some((_, at)) => Some(at),
        None => None,
    }
}

/// Picks the executable to run from the files that an archive produced.
///
/// Prefers a match for the platform at the shallowest depth, because a build
/// usually has `Game.exe` at the root and incidentals like `tools/crashpad.exe`
/// further down. Of several at that depth the first is taken.
pub fn pick_executable(files: &[String], platform: &str) -> (game: Option<String>)
    ensures
        is_pick(text::text_in(game), text::texts(files@), platform@),
{
    let mut good: Vec<bool> = Vec::new();
    for i in 0..files.len()
        invariant
            good@ == marked(text::texts(files@), platform@).take(i as int),
    {
        let lower = text::lowercase(files[i].as_str());
        good.push(is_candidate(lower.as_str(), platform));
    }
    assert(good@ =~= marked(text::texts(files@), platform@));
    match shallowest(files, &good) {
        Some(at) => {
            assert(text::texts(files@)[at as int] == files@[at as int]@);
            Some(files[at].clone())
        },
        None => None,
    }
}

// ---------------------------------------------------------------------------
// Laws
// ---------------------------------------------------------------------------

/// The files and the platform settle what is picked.
pub proof fn law_the_pick_is_settled(
    files: Seq<Seq<char>>,
    platform: Seq<char>,
    a: Option<Seq<char>>,
    b: Option<Seq<char>>,
)
    requires
        is_pick(a, files, platform),
        is_pick(b, files, platform),
    ensures
        a == b,
{
    let good = marked(files, platform);
    if a is Some {
        let i = choose|i: int|
            #![trigger files[i]]
            is_shallowest(files, good, i) && a->0 == files[i];
        assert(good[i]);
        let j = choose|j: int|
            #![trigger files[j]]
            is_shallowest(files, good, j) && b->0 == files[j];
        assert(good[j]);
    }
    if b is Some {
        let j = choose|j: int|
            #![trigger files[j]]
            is_shallowest(files, good, j) && b->0 == files[j];
        assert(good[j]);
    }
}

/// What is picked is one of the files, and may be the game.
pub proof fn law_the_pick_may_be_the_game(
    files: Seq<Seq<char>>,
    platform: Seq<char>,
    game: Seq<char>,
)
    requires
        is_pick(Some(game), files, platform),
    ensures
        files.contains(game),
        may_be_the_game(text::lowercase_of(game), platform),
{
    let i = choose|i: int|
        #![trigger files[i]]
        is_shallowest(files, marked(files, platform), i) && game == files[i];
    assert(marked(files, platform)[i]);
}

proof fn lemma_depth_counts_segments(file: Seq<char>)
    ensures
        paths::segments(file).len() == depth(file) + 1,
    decreases file.len(),
{
    if file.len() == 0 {
        text::law_occurrences_add_up(file, '/', '/');
        assert(file =~= Seq::<char>::empty());
    } else {
        let shorter = file.drop_last();
        lemma_depth_counts_segments(shorter);
        text::law_occurrences_add_up(shorter, file.last(), '/');
        assert(shorter.push(file.last()) =~= file);
    }
}

/// What is picked lies in the fewest directories: no file that may be the game has fewer
/// pieces between its slashes, and none that is listed before it has as few.
pub proof fn law_the_pick_lies_in_the_fewest_directories(
    files: Seq<Seq<char>>,
    platform: Seq<char>,
    game: Seq<char>,
)
    requires
        is_pick(Some(game), files, platform),
    ensures
        exists|i: int|
            {
                &&& 0 <= i < files.len()
                &&& #[trigger] files[i] == game
                &&& may_be_the_game(text::lowercase_of(files[i]), platform)
                &&& forall|j: int|
                    0 <= j < files.len() && may_be_the_game(
                        text::lowercase_of(#[trigger] files[j]),
                        platform,
                    ) ==> paths::segments(files[i]).len() <= paths::segments(files[j]).len() && (j
                        < i ==> paths::segments(files[i]).len() < paths::segments(files[j]).len())
            },
{
    let good = marked(files, platform);
    let i = choose|i: int|
        #![trigger files[i]]
        is_shallowest(files, good, i) && game == files[i];
    assert(good[i]);
    lemma_depth_counts_segments(files[i]);
    assert forall|j: int|
        0 <= j < files.len() && may_be_the_game(
            text::lowercase_of(#[trigger] files[j]),
            platform,
        ) implies paths::segments(files[i]).len() <= paths::segments(files[j]).len() && (j < i
        ==> paths::segments(files[i]).len() < paths::segments(files[j]).len()) by {
        assert(good[j]);
        lemma_depth_counts_segments(files[j]);
    }
}

/// Something is picked wherever one of the files may be the game, and nothing where none
/// may.
pub proof fn law_a_game_is_found_where_there_is_one(
    files: Seq<Seq<char>>,
    platform: Seq<char>,
    pick: Option<Seq<char>>,
)
    requires
        is_pick(pick, files, platform),
    ensures
        pick is Some <==> exists|i: int|
            0 <= i < files.len() && may_be_the_game(
                text::lowercase_of(#[trigger] files[i]),
                platform,
            ),
{
    let good = marked(files, platform);
    if pick is Some {
        let i = choose|i: int|
            #![trigger files[i]]
            is_shallowest(files, good, i) && pick->0 == files[i];
        assert(good[i]);
        assert(may_be_the_game(text::lowercase_of(files[i]), platform));
    } else {
        assert forall|i: int| 0 <= i < files.len() implies !may_be_the_game(
            text::lowercase_of(#[trigger] files[i]),
            platform,
        ) by {
            assert(!good[i]);
        }
    }
}

/// Whatever stands around it, a name that holds one of these words is not the game's, on
/// any platform.
pub proof fn law_what_comes_along_is_not_the_game(
    before: Seq<char>,
    after: Seq<char>,
    platform: Seq<char>,
)
    ensures
        !may_be_the_game(before + "unins"@ + after, platform),
        !may_be_the_game(before + "vcredist"@ + after, platform),
        !may_be_the_game(before + "dxsetup"@ + after, platform),
        !may_be_the_game(before + "crashpad"@ + after, platform),
        !may_be_the_game(before + "setup.exe"@ + after, platform),
{
    text::law_a_piece_is_found_where_it_stands(before, "unins"@, after, before);
    text::law_a_piece_is_found_where_it_stands(before, "vcredist"@, after, before);
    text::law_a_piece_is_found_where_it_stands(before, "dxsetup"@, after, before);
    text::law_a_piece_is_found_where_it_stands(before, "crashpad"@, after, before);
    text::law_a_piece_is_found_where_it_stands(before, "setup.exe"@, after, before);
}

/// A name without any of these words is the game's exactly where the platform runs it: on
/// Windows where it ends in `.exe`, on a Mac where it ends in `.app` or has no dot, and
/// elsewhere where it has no dot.
pub proof fn law_the_platform_decides_on_every_other_name(lower: Seq<char>, platform: Seq<char>)
    requires
        forall|at: int|
            0 <= at <= lower.len() - "unins"@.len() ==> #[trigger] lower.subrange(
                at,
                at + "unins"@.len(),
            ) != "unins"@,
        forall|at: int|
            0 <= at <= lower.len() - "vcredist"@.len() ==> #[trigger] lower.subrange(
                at,
                at + "vcredist"@.len(),
            ) != "vcredist"@,
        forall|at: int|
            0 <= at <= lower.len() - "dxsetup"@.len() ==> #[trigger] lower.subrange(
                at,
                at + "dxsetup"@.len(),
            ) != "dxsetup"@,
        forall|at: int|
            0 <= at <= lower.len() - "crashpad"@.len() ==> #[trigger] lower.subrange(
                at,
                at + "crashpad"@.len(),
            ) != "crashpad"@,
        forall|at: int|
            0 <= at <= lower.len() - "setup.exe"@.len() ==> #[trigger] lower.subrange(
                at,
                at + "setup.exe"@.len(),
            ) != "setup.exe"@,
    ensures
        platform == "win"@ ==> (may_be_the_game(lower, platform) <==> lower.len() >= 4
            && lower.skip(lower.len() - 4) == ".exe"@),
        platform == "mac"@ ==> (may_be_the_game(lower, platform) <==> (lower.len() >= 4
            && lower.skip(lower.len() - 4) == ".app"@) || forall|i: int|
            0 <= i < lower.len() ==> lower[i] != '.'),
        platform != "win"@ && platform != "mac"@ ==> (may_be_the_game(lower, platform)
            <==> forall|i: int| 0 <= i < lower.len() ==> lower[i] != '.'),
{
    reveal_strlit(".exe");
    reveal_strlit(".app");
    reveal_strlit("win");
    reveal_strlit("mac");
    assert("win"@[0] == 'w' && "mac"@[0] == 'm');
    text::law_a_piece_is_found_where_it_stands(lower, "unins"@, lower, lower);
    text::law_a_piece_is_found_where_it_stands(lower, "vcredist"@, lower, lower);
    text::law_a_piece_is_found_where_it_stands(lower, "dxsetup"@, lower, lower);
    text::law_a_piece_is_found_where_it_stands(lower, "crashpad"@, lower, lower);
    text::law_a_piece_is_found_where_it_stands(lower, "setup.exe"@, lower, lower);
    assert(!is_incidental(lower));
    if lower.len() >= 4 {
        let tail = lower.skip(lower.len() - 4);
        assert(tail =~= lower.subrange(lower.len() - 4, lower.len() as int));
    }
    assert(lower.contains('.') <==> exists|i: int| 0 <= i < lower.len() && lower[i] == '.');
}

} // verus!
