//! Where the entries of a build's archive may be written.
//!
//! A build is a zip uploaded by a developer. A hostile or merely broken one can
//! hold `../../../.ssh/authorized_keys`, an absolute path, or a drive-relative
//! path. Extracting those verbatim writes outside the game's folder, so every
//! entry goes through [`safe_join`] first.

use vstd::prelude::*;
use vstd::string::*;

use crate::paths;
use crate::paths::Location;
use crate::text;

verus! {

// ---------------------------------------------------------------------------
// What an entry's name means
// ---------------------------------------------------------------------------

/// A slash for a backslash; every other character as it is.
pub open spec fn slash_for(c: char) -> char {
    if c == '\\' {
        '/'
    } else {
        c
    }
}

/// A text with a slash in place of each backslash.
pub open spec fn slashed(entry: Seq<char>) -> Seq<char> {
    entry.map_values(|c: char| slash_for(c))
}

/// The text begins with a drive letter and a colon.
pub open spec fn has_drive_letter(text: Seq<char>) -> bool {
    text.len() >= 2 && text::is_ascii_letter(text[0]) && text[1] == ':'
}

/// The piece `..`, which climbs out of a directory.
pub open spec fn climb() -> Seq<char> {
    seq!['.', '.']
}

/// A text that is no relative path into the archive: empty, absolute, on a drive
/// of its own, or with a NUL in it.
pub open spec fn is_foreign(text: Seq<char>) -> bool {
    ||| text.len() == 0
    ||| text[0] == '/'
    ||| has_drive_letter(text)
    ||| text.contains('\0')
}

/// The names along the path of an archive entry, from the outermost in, or `None`
/// where the entry must be skipped: it is foreign, it climbs, it names nothing, or
/// one of its names would be read as a drive. Only machines that know drives
/// (`drives`) read a name that way.
pub open spec fn entry_names(drives: bool, entry: Seq<char>) -> Option<Seq<Seq<char>>> {
    let names = paths::path_names(slashed(entry));
    if is_foreign(slashed(entry)) || names.contains(climb()) || names.len() == 0 {
        None
    } else if drives && exists|i: int| 0 <= i < names.len() && has_drive_letter(#[trigger] names[i]) {
        None
    } else {
        Some(names)
    }
}

/// Where an archive entry is written below `install_dir`, or `None` where it must
/// be skipped.
pub open spec fn entry_target(drives: bool, install_dir: paths::Place, entry: Seq<char>) -> Option<
    paths::Place,
> {
    match entry_names(drives, entry) {
        Some(names) => Some(install_dir.below(names)),
        None => None,
    }
}

// ---------------------------------------------------------------------------
// Reading an entry
// ---------------------------------------------------------------------------

/// Calls `std::path::Path::is_absolute`. Nothing is claimed of the answer: it depends
/// on the machine, since only Windows paths begin with a drive.
#[verifier::external_body]
fn is_absolute(path: &str) -> (yes: bool) {
    std::path::Path::new(path).is_absolute()
}

fn drive_letter_leads(chars: &Vec<char>) -> (yes: bool)
    ensures
        yes == has_drive_letter(chars@),
{
    chars.len() >= 2 && text::ascii_letter(chars[0]) && chars[1] == ':'
}

fn slashed_chars(entry: &str) -> (chars: Vec<char>)
    ensures
        chars@ == slashed(entry@),
{
    let entry_chars = text::chars_of(entry);
    let mut chars: Vec<char> = Vec::new();
    for i in 0..entry_chars.len()
        invariant
            entry_chars@ == entry@,
            chars@ == slashed(entry@).take(i as int),
    {
        chars.push(
            if entry_chars[i] == '\\' {
                '/'
            } else {
                entry_chars[i]
            },
        );
    }
    chars
}

/// An entry's name with a slash in place of each backslash. Windows-built archives
/// hold backslashes at times.
pub fn with_slashes(entry: &str) -> (name: String)
    ensures
        name@ == slashed(entry@),
{
    text::string_of(&slashed_chars(entry))
}

fn foreign(chars: &Vec<char>) -> (yes: bool)
    ensures
        yes == is_foreign(chars@),
{
    if chars.len() == 0 || chars[0] == '/' || drive_letter_leads(chars) {
        return true;
    }
    for i in 0..chars.len()
        invariant
            forall|j: int| 0 <= j < i ==> chars@[j] != '\0',
    {
        if chars[i] == '\0' {
            assert(chars@[i as int] == '\0');
            return true;
        }
    }
    false
}

/// The names along the path of an archive entry, or `None` where the entry must be
/// skipped, on a machine that knows drives or does not.
pub fn names_of_entry(drives: bool, entry: &str) -> (names: Option<Vec<String>>)
    ensures
        match names {
            Some(names) => entry_names(drives, entry@) == Some(text::texts(names@)),
            None => entry_names(drives, entry@) is None,
        },
{
    let chars = slashed_chars(entry);
    if foreign(&chars) {
        return None;
    }
    let pieces = paths::split_segments(&chars);
    let ghost all = paths::path_names(slashed(entry@));
    let mut names: Vec<String> = Vec::new();
    proof {
        reveal(Seq::filter);
        assert(paths::rows(pieces@).take(0).filter(paths::naming()) =~= Seq::empty());
        assert(text::texts(names@) =~= Seq::empty());
    }
    for i in 0..pieces.len()
        invariant
            chars@ == slashed(entry@),
            !is_foreign(chars@),
            paths::rows(pieces@) == paths::segments(chars@),
            all == paths::path_names(slashed(entry@)),
            text::texts(names@) == paths::rows(pieces@).take(i as int).filter(paths::naming()),
            !text::texts(names@).contains(climb()),
            drives ==> forall|j: int|
                0 <= j < names@.len() ==> !has_drive_letter(#[trigger] text::texts(names@)[j]),
    {
        let piece = &pieces[i];
        let ghost before = text::texts(names@);
        proof {
            reveal(Seq::filter);
            assert(paths::rows(pieces@).take(i + 1).drop_last() =~= paths::rows(pieces@).take(
                i as int,
            ));
            assert(paths::rows(pieces@)[i as int] == piece@);
        }
        let dot = piece.len() == 1 && piece[0] == '.';
        assert(dot == (piece@ =~= seq!['.']));
        if piece.len() > 0 && !dot {
            let dots = piece.len() == 2 && piece[0] == '.' && piece[1] == '.';
            assert(dots == (piece@ =~= climb()));
            if dots || (drives && drive_letter_leads(piece)) {
                proof {
                    let upto = paths::rows(pieces@).take(i + 1).filter(paths::naming());
                    lemma_early_names_stay(paths::rows(pieces@), i + 1);
                    assert(upto == before.push(piece@));
                    assert(all[before.len() as int] == upto[before.len() as int]);
                }
                return None;
            }
            names.push(text::string_of(piece));
            assert(text::texts(names@) =~= before.push(piece@));
        }
    }
    assert(paths::rows(pieces@).take(pieces.len() as int) =~= paths::rows(pieces@));
    assert(text::texts(names@) == all);
    if names.len() == 0 {
        return None;
    }
    Some(names)
}

/// What the first pieces of a path name, the whole path names too, in the same
/// places.
proof fn lemma_early_names_stay(pieces: Seq<Seq<char>>, upto: int)
    requires
        0 <= upto <= pieces.len(),
    ensures
        pieces.take(upto).filter(paths::naming()).is_prefix_of(pieces.filter(paths::naming())),
    decreases pieces.len() - upto,
{
    if upto < pieces.len() {
        reveal(Seq::filter);
        lemma_early_names_stay(pieces, upto + 1);
        assert(pieces.take(upto + 1).drop_last() =~= pieces.take(upto));
    } else {
        assert(pieces.take(upto) =~= pieces);
    }
}

/// Resolves an archive entry against the directory that its game is installed in,
/// on a machine that knows drives or does not. `None` means that the entry must be
/// skipped.
pub fn safe_join_on(drives: bool, install_dir: &Location, entry: &str) -> (target: Option<Location>)
    ensures
        paths::place_in(target) == entry_target(drives, install_dir@, entry@),
{
    match names_of_entry(drives, entry) {
        Some(names) => Some(install_dir.join_all(&names)),
        None => None,
    }
}

/// Whether this machine knows drives: there, and only there, the root of one is an
/// absolute path. The answer is the machine's, and nothing is claimed of it.
pub fn knows_drives() -> (yes: bool) {
    is_absolute("C:/")
}

/// Resolves an archive entry against the directory that its game is installed in,
/// refusing whatever would escape it. `None` means that the entry must be skipped.
///
/// Whether this machine knows drives is found out here; it matters only where a
/// name after the first one begins with a drive letter and a colon.
pub fn safe_join(install_dir: &Location, entry: &str) -> (target: Option<Location>)
    ensures
        paths::place_in(target) == entry_target(true, install_dir@, entry@) || paths::place_in(
            target,
        ) == entry_target(false, install_dir@, entry@),
{
    safe_join_on(knows_drives(), install_dir, entry)
}

// ---------------------------------------------------------------------------
// Laws
// ---------------------------------------------------------------------------

/// A name that stays in the directory it is looked up in and means one file there:
/// neither empty nor `.` nor `..`, with no separator and no NUL in it.
pub open spec fn is_plain_name(name: Seq<char>) -> bool {
    &&& paths::is_name(name)
    &&& name != climb()
    &&& forall|i: int| 0 <= i < name.len() ==> name[i] != '/' && name[i] != '\\' && name[i] != '\0'
}

/// Whatever entry is accepted, each of its names is plain.
pub proof fn law_accepted_names_are_plain(drives: bool, entry: Seq<char>)
    requires
        entry_names(drives, entry) is Some,
    ensures
        entry_names(drives, entry)->0.len() > 0,
        forall|i: int|
            0 <= i < entry_names(drives, entry)->0.len() ==> is_plain_name(
                #[trigger] entry_names(drives, entry)->0[i],
            ),
{
    let text = slashed(entry);
    let pieces = paths::segments(text);
    let names = entry_names(drives, entry)->0;
    assert forall|i: int| 0 <= i < names.len() implies is_plain_name(#[trigger] names[i]) by {
        pieces.lemma_filter_pred(paths::naming(), i);
        assert(names.contains(names[i]));
        pieces.lemma_filter_contains_rev(paths::naming(), names[i]);
        let k = choose|k: int| 0 <= k < pieces.len() && pieces[k] == names[i];
        paths::law_segments_are_what_slashes_part(text);
        assert(paths::has_no_slash(pieces[k]));
        assert forall|j: int| 0 <= j < names[i].len() implies names[i][j] != '/' && names[i][j]
            != '\\' && names[i][j] != '\0' by {
            paths::lemma_segments_hold_the_characters(text, k, j);
            let at = choose|at: int| 0 <= at < text.len() && text[at] == names[i][j];
            assert(text[at] == slash_for(entry[at]));
        }
    }
}

/// Wherever an entry is written, it is below the install directory: the way there leads
/// through the directory and on by the entry's names, at least one, each of which is
/// plain and so leads further in.
pub proof fn law_entries_stay_below_the_install_dir(
    drives: bool,
    install_dir: paths::Place,
    entry: Seq<char>,
)
    requires
        entry_target(drives, install_dir, entry) is Some,
    ensures
        entry_target(drives, install_dir, entry)->0.base == install_dir.base,
        install_dir.names.is_prefix_of(entry_target(drives, install_dir, entry)->0.names),
        entry_target(drives, install_dir, entry)->0.names.len() > install_dir.names.len(),
        forall|i: int|
            install_dir.names.len() <= i < entry_target(drives, install_dir, entry)->0.names.len()
                ==> is_plain_name(#[trigger] entry_target(drives, install_dir, entry)->0.names[i]),
{
    let names = entry_names(drives, entry)->0;
    let target = entry_target(drives, install_dir, entry)->0;
    law_accepted_names_are_plain(drives, entry);
    assert(install_dir.names =~= target.names.take(install_dir.names.len() as int));
    assert forall|i: int| install_dir.names.len() <= i < target.names.len() implies is_plain_name(
        #[trigger] target.names[i],
    ) by {
        assert(is_plain_name(names[i - install_dir.names.len()]));
    }
}

/// A backslash in an entry is read as a slash.
pub proof fn law_backslashes_are_slashes(drives: bool, entry: Seq<char>)
    ensures
        entry_names(drives, slashed(entry)) == entry_names(drives, entry),
{
    assert(slashed(slashed(entry)) =~= slashed(entry));
}

/// An entry that climbs anywhere is refused, even where it would come back.
pub proof fn law_climbing_is_refused(drives: bool, entry: Seq<char>)
    requires
        paths::segments(slashed(entry)).contains(climb()),
    ensures
        entry_names(drives, entry) is None,
{
    let pieces = paths::segments(slashed(entry));
    let k = choose|k: int| 0 <= k < pieces.len() && pieces[k] == climb();
    assert(climb()[1] == '.' && seq!['.'].len() == 1);
    pieces.lemma_filter_contains(paths::naming(), k);
}

/// A machine that knows drives refuses more and resolves nothing differently; the
/// two kinds differ only over an entry one of whose names begins with a drive
/// letter and a colon.
pub proof fn law_drives_only_refuse_more(entry: Seq<char>)
    ensures
        entry_names(true, entry) is Some ==> entry_names(false, entry) == entry_names(true, entry),
        entry_names(false, entry) != entry_names(true, entry) ==> exists|i: int|
            0 <= i < entry_names(false, entry)->0.len() && has_drive_letter(
                #[trigger] entry_names(false, entry)->0[i],
            ),
{
    if entry_names(false, entry) != entry_names(true, entry) {
        let names = paths::path_names(slashed(entry));
        let i = choose|i: int| 0 <= i < names.len() && has_drive_letter(#[trigger] names[i]);
        assert(has_drive_letter(entry_names(false, entry)->0[i]));
    }
}

proof fn lemma_joined_characters(pieces: Seq<Seq<char>>, k: int)
    requires
        0 <= k < paths::slash_joined(pieces).len(),
    ensures
        paths::slash_joined(pieces)[k] == '/' || exists|i: int, j: int|
            0 <= i < pieces.len() && 0 <= j < pieces[i].len() && #[trigger] pieces[i][j]
                == paths::slash_joined(pieces)[k],
    decreases pieces.len(),
{
    let text = paths::slash_joined(pieces);
    if pieces.len() == 1 {
        assert(pieces[0][k] == text[k]);
    } else if pieces.len() > 1 {
        let shorter = pieces.drop_last();
        let head = paths::slash_joined(shorter);
        if k < head.len() {
            lemma_joined_characters(shorter, k);
            if text[k] != '/' {
                let (i, j) = choose|i: int, j: int|
                    0 <= i < shorter.len() && 0 <= j < shorter[i].len() && #[trigger] shorter[i][j]
                        == head[k];
                assert(pieces[i][j] == text[k]);
            }
        } else if k > head.len() {
            assert(pieces[pieces.len() - 1][k - head.len() - 1] == text[k]);
        }
    }
}

proof fn lemma_joined_begins_with_the_first(pieces: Seq<Seq<char>>)
    requires
        pieces.len() > 0,
    ensures
        pieces[0].is_prefix_of(paths::slash_joined(pieces)),
        paths::slash_joined(pieces).len() > pieces[0].len() ==> paths::slash_joined(
            pieces,
        )[pieces[0].len() as int] == '/',
    decreases pieces.len(),
{
    if pieces.len() > 1 {
        let shorter = pieces.drop_last();
        lemma_joined_begins_with_the_first(shorter);
        let head = paths::slash_joined(shorter);
        let text = paths::slash_joined(pieces);
        assert(shorter[0] == pieces[0]);
        assert(head.is_prefix_of(text));
        assert(text[head.len() as int] == '/');
        assert(pieces[0] =~= text.take(pieces[0].len() as int)) by {
            assert(pieces[0] == head.take(pieces[0].len() as int));
        }
    } else {
        assert(paths::slash_joined(pieces) == pieces[0]);
    }
}

proof fn lemma_all_names_stay(pieces: Seq<Seq<char>>)
    requires
        forall|i: int| 0 <= i < pieces.len() ==> paths::is_name(#[trigger] pieces[i]),
    ensures
        pieces.filter(paths::naming()) == pieces,
    decreases pieces.len(),
{
    reveal(Seq::filter);
    if pieces.len() > 0 {
        let shorter = pieces.drop_last();
        assert forall|i: int| 0 <= i < shorter.len() implies paths::is_name(
            #[trigger] shorter[i],
        ) by {
            assert(paths::is_name(pieces[i]));
        }
        lemma_all_names_stay(shorter);
        assert(paths::is_name(pieces[pieces.len() - 1]));
        assert(shorter.push(pieces.last()) =~= pieces);
    } else {
        assert(pieces.filter(paths::naming()) =~= pieces);
    }
}

/// Nothing but what would escape or mean another file is refused: an entry made of plain
/// names is accepted, whatever other characters they hold, and is written under exactly
/// those names below the install directory. A plain name is not empty, is neither `.` nor
/// `..`, and holds no slash, backslash or NUL. No name may begin with a drive letter and a
/// colon; where the machine knows no drives, only the first may not.
pub proof fn law_plain_names_are_accepted(
    drives: bool,
    install_dir: paths::Place,
    names: Seq<Seq<char>>,
)
    requires
        names.len() > 0,
        forall|i: int|
            0 <= i < names.len() ==> (#[trigger] names[i]).len() > 0 && names[i] != seq!['.']
                && names[i] != seq!['.', '.'],
        forall|i: int, j: int|
            0 <= i < names.len() && 0 <= j < names[i].len() ==> #[trigger] names[i][j] != '/'
                && names[i][j] != '\\' && names[i][j] != '\0',
        forall|i: int|
            0 <= i < names.len() && (drives || i == 0) ==> !((#[trigger] names[i]).len() >= 2 && (
            'a' <= names[i][0] <= 'z' || 'A' <= names[i][0] <= 'Z') && names[i][1] == ':'),
    ensures
        entry_names(drives, paths::slash_joined(names)) == Some(names),
        entry_target(drives, install_dir, paths::slash_joined(names)) == Some(
            paths::Place { base: install_dir.base, names: install_dir.names + names },
        ),
{
    let entry = paths::slash_joined(names);
    assert forall|k: int| 0 <= k < entry.len() implies entry[k] != '\\' && entry[k] != '\0' by {
        lemma_joined_characters(names, k);
        if entry[k] != '/' {
            let (i, j) = choose|i: int, j: int|
                0 <= i < names.len() && 0 <= j < names[i].len() && #[trigger] names[i][j]
                    == entry[k];
            assert(names[i][j] != '\\');
        }
    }
    assert(slashed(entry) =~= entry);
    paths::law_joined_pieces_come_apart(names);
    lemma_all_names_stay(names);
    lemma_joined_begins_with_the_first(names);
    let first = names[0];
    assert(first.len() > 0);
    assert(first[0] == entry[0]);
    assert(entry[0] != '/');
    if entry.len() >= 2 {
        if first.len() >= 2 {
            assert(first[1] == entry[1]);
        } else {
            assert(entry[1] == '/');
        }
    }
    assert(!has_drive_letter(entry));
    assert(!is_foreign(entry));
    assert(!names.contains(climb()));
    assert(paths::path_names(entry) == names);
    if drives {
        assert forall|i: int| 0 <= i < names.len() implies !has_drive_letter(
            #[trigger] names[i],
        ) by {}
    }
}

/// A pointless piece changes nothing: an entry that is accepted is accepted just as well
/// with a slash behind it, or with `./` in front of it, and comes to the same names.
pub proof fn law_pointless_pieces_change_nothing(drives: bool, entry: Seq<char>)
    requires
        entry_names(drives, entry) is Some,
    ensures
        entry_names(drives, entry + seq!['/']) == entry_names(drives, entry),
        entry_names(drives, seq!['.', '/'] + entry) == entry_names(drives, entry),
{
    let text = slashed(entry);
    let behind = entry + seq!['/'];
    let before = seq!['.', '/'] + entry;
    let none = Seq::<char>::empty();
    let dot = seq!['.'];
    paths::law_a_path_names_what_its_parts_name(none, none);
    paths::law_a_path_names_what_its_parts_name(text, none);
    paths::law_a_path_names_what_its_parts_name(dot, text);
    assert(slashed(behind) =~= text + seq!['/'] + none);
    assert(slashed(before) =~= dot + seq!['/'] + text);
    assert(paths::path_names(slashed(behind)) =~= paths::path_names(text));
    assert(paths::path_names(slashed(before)) =~= paths::path_names(text));
    assert(text.len() > 0);
    let long = slashed(behind);
    assert(long[0] == text[0]);
    assert(!long.contains('\0')) by {
        if long.contains('\0') {
            let k = choose|k: int| 0 <= k < long.len() && long[k] == '\0';
            assert(text[k] == '\0');
        }
    }
    if has_drive_letter(long) {
        assert(text.len() >= 2);
        assert(long[1] == text[1]);
    }
    let far = slashed(before);
    assert(!far.contains('\0')) by {
        if far.contains('\0') {
            let k = choose|k: int| 0 <= k < far.len() && far[k] == '\0';
            assert(far[0] == '.' && far[1] == '/');
            assert(text[k - 2] == '\0');
        }
    }
    assert(far[0] == '.');
}

/// What would escape is refused, whatever else the entry holds: an empty entry, one that
/// begins with a slash or a backslash, one that begins with a drive letter and a colon, and
/// one with a NUL anywhere.
pub proof fn law_escapes_are_refused(drives: bool, entry: Seq<char>)
    requires
        entry.len() == 0 || entry[0] == '/' || entry[0] == '\\' || entry.contains('\0') || (
        entry.len() >= 2 && ('a' <= entry[0] <= 'z' || 'A' <= entry[0] <= 'Z') && entry[1] == ':'),
    ensures
        entry_names(drives, entry) is None,
{
    let text = slashed(entry);
    if entry.contains('\0') {
        let k = choose|k: int| 0 <= k < entry.len() && entry[k] == '\0';
        assert(text[k] == '\0');
    }
}

/// An entry is refused where a piece between its slashes or backslashes is `..`, wherever
/// it stands.
pub proof fn law_a_climb_between_slashes_is_refused(drives: bool, a: Seq<char>, b: Seq<char>)
    ensures
        entry_names(drives, a + seq!['/', '.', '.', '/'] + b) is None,
        entry_names(drives, a + seq!['\\', '.', '.', '\\'] + b) is None,
        entry_names(drives, seq!['.', '.', '/'] + b) is None,
        entry_names(drives, a + seq!['/', '.', '.']) is None,
        entry_names(drives, seq!['.', '.']) is None,
{
    let up = seq!['.', '.'];
    let left = slashed(a);
    let right = slashed(b);
    paths::law_a_slash_parts_a_text(up, right);
    paths::law_a_slash_parts_a_text(left, up);
    paths::law_a_slash_parts_a_text(left, up + seq!['/'] + right);
    let alone = paths::segments(up);
    assert(alone == seq![up]);
    assert(alone[0] == climb());
    let first = paths::segments(up + seq!['/'] + right);
    assert(first[0] == alone[0]);
    let last = paths::segments(left + seq!['/'] + up);
    assert(last[last.len() - 1] == climb());
    let middle = paths::segments(left + seq!['/'] + (up + seq!['/'] + right));
    assert(middle[paths::segments(left).len() as int] == climb());
    assert(slashed(a + seq!['/', '.', '.', '/'] + b) =~= left + seq!['/'] + (up + seq!['/']
        + right));
    assert(slashed(a + seq!['\\', '.', '.', '\\'] + b) =~= left + seq!['/'] + (up + seq!['/']
        + right));
    assert(slashed(seq!['.', '.', '/'] + b) =~= up + seq!['/'] + right);
    assert(slashed(a + seq!['/', '.', '.']) =~= left + seq!['/'] + up);
    assert(slashed(up) =~= up);
    law_climbing_is_refused(drives, a + seq!['/', '.', '.', '/'] + b);
    law_climbing_is_refused(drives, a + seq!['\\', '.', '.', '\\'] + b);
    law_climbing_is_refused(drives, seq!['.', '.', '/'] + b);
    law_climbing_is_refused(drives, a + seq!['/', '.', '.']);
    law_climbing_is_refused(drives, up);
}

/// On a machine that knows drives no accepted name begins with a drive letter and a colon.
pub proof fn law_drives_are_not_written_to(entry: Seq<char>, i: int)
    requires
        entry_names(true, entry) is Some,
        0 <= i < entry_names(true, entry)->0.len(),
    ensures
        !(entry_names(true, entry)->0[i].len() >= 2 && ('a' <= entry_names(true, entry)->0[i][0]
            <= 'z' || 'A' <= entry_names(true, entry)->0[i][0] <= 'Z') && entry_names(
            true,
            entry,
        )->0[i][1] == ':'),
{
    assert(!has_drive_letter(entry_names(true, entry)->0[i]));
}

/// A backslash anywhere in an entry stands for a slash, and no other character stands for
/// anything but itself: the entry is read, and recorded, as with a slash in its place.
pub proof fn law_a_backslash_stands_for_a_slash(drives: bool, a: Seq<char>, b: Seq<char>, i: int)
    requires
        0 <= i < a.len(),
    ensures
        entry_names(drives, a + seq!['\\'] + b) == entry_names(drives, a + seq!['/'] + b),
        slashed(a).len() == a.len(),
        a[i] == '\\' ==> slashed(a)[i] == '/',
        a[i] != '\\' ==> slashed(a)[i] == a[i],
{
    assert(slashed(a + seq!['\\'] + b) =~= slashed(a + seq!['/'] + b));
}

} // verus!
