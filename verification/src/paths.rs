//! Paths: what a path in an archive names, and where the launcher keeps its files below
//! the application's data directory.

use vstd::prelude::*;
use vstd::string::*;

use crate::number;
use crate::text;

verus! {

// ---------------------------------------------------------------------------
// Reading a path
// ---------------------------------------------------------------------------

/// What stands between the slashes of a text: one piece more than there are
/// slashes, empty pieces included.
pub open spec fn segments(text: Seq<char>) -> Seq<Seq<char>>
    decreases text.len(),
{
    if text.len() == 0 {
        seq![Seq::<char>::empty()]
    } else {
        let before = segments(text.drop_last());
        if text.last() == '/' {
            before.push(Seq::<char>::empty())
        } else {
            before.drop_last().push(before.last().push(text.last()))
        }
    }
}

/// A piece that names something: an empty one and `.` stay where they are.
pub open spec fn is_name(piece: Seq<char>) -> bool {
    piece.len() > 0 && piece != seq!['.']
}

/// Being a piece that names something.
pub open spec fn naming() -> spec_fn(Seq<char>) -> bool {
    |piece: Seq<char>| is_name(piece)
}

/// The names along a path, from the outermost in. A repeated slash, a slash at
/// the end and `.` add nothing.
pub open spec fn path_names(path: Seq<char>) -> Seq<Seq<char>> {
    segments(path).filter(naming())
}

/// The pieces put back together, with a slash between each two.
pub open spec fn slash_joined(pieces: Seq<Seq<char>>) -> Seq<char>
    decreases pieces.len(),
{
    if pieces.len() == 0 {
        Seq::empty()
    } else if pieces.len() == 1 {
        pieces[0]
    } else {
        slash_joined(pieces.drop_last()).push('/') + pieces.last()
    }
}

/// The texts of a row of character vectors.
pub open spec fn rows(vectors: Seq<Vec<char>>) -> Seq<Seq<char>> {
    vectors.map_values(|v: Vec<char>| v@)
}

/// The pieces between the slashes of a text.
pub(crate) fn split_segments(text: &Vec<char>) -> (pieces: Vec<Vec<char>>)
    ensures
        rows(pieces@) == segments(text@),
{
    let mut done: Vec<Vec<char>> = Vec::new();
    let mut current: Vec<char> = Vec::new();
    assert(rows(done@).push(current@) =~= segments(text@.take(0)));
    for i in 0..text.len()
        invariant
            rows(done@).push(current@) == segments(text@.take(i as int)),
    {
        let ghost before = rows(done@).push(current@);
        assert(text@.take(i + 1).drop_last() =~= text@.take(i as int));
        assert(before.last() == current@);
        assert(before.drop_last() =~= rows(done@));
        if text[i] == '/' {
            done.push(current);
            current = Vec::new();
            assert(rows(done@) =~= before);
        } else {
            current.push(text[i]);
        }
    }
    assert(text@.take(text.len() as int) =~= text@);
    let ghost before = rows(done@).push(current@);
    done.push(current);
    assert(rows(done@) =~= before);
    done
}

// ---------------------------------------------------------------------------
// Locations
// ---------------------------------------------------------------------------

/// A place on this machine: a directory, and the names that lead on from there, from the
/// outermost in. The path that it stands for is the directory's, extended by each name in
/// turn; how a path is extended, the machine decides.
#[derive(Debug, PartialEq, Eq)]
pub struct Location {
    pub base: String,
    pub names: Vec<String>,
}

/// A [`Location`] as texts.
#[verifier::ext_equal]
pub struct Place {
    pub base: Seq<char>,
    pub names: Seq<Seq<char>>,
}

impl View for Location {
    type V = Place;

    open spec fn view(&self) -> Place {
        Place { base: self.base@, names: text::texts(self.names@) }
    }
}

impl Place {
    /// The place that the names lead to from here.
    pub open spec fn below(self, names: Seq<Seq<char>>) -> Place {
        Place { base: self.base, names: self.names + names }
    }
}

/// The place of an optional location.
pub open spec fn place_in(location: Option<Location>) -> Option<Place> {
    match location {
        Some(location) => Some(location@),
        None => None,
    }
}

impl Clone for Location {
    fn clone(&self) -> (copy: Self)
        ensures
            copy@ == self@,
    {
        Location { base: self.base.clone(), names: text::copy_of_all(&self.names) }
    }
}

impl Location {
    /// A directory itself.
    pub fn at(base: &str) -> (location: Self)
        ensures
            location@ == (Place { base: base@, names: Seq::empty() }),
    {
        let location = Location { base: base.to_owned(), names: Vec::new() };
        assert(location@ =~= Place { base: base@, names: Seq::empty() });
        location
    }

    /// What lies here under a name.
    pub fn join(&self, name: &str) -> (location: Self)
        ensures
            location@ == self@.below(seq![name@]),
    {
        let mut location = self.clone();
        let ghost before = location@.names;
        location.names.push(name.to_owned());
        assert(location@.names =~= before + seq![name@]);
        location
    }

    /// What the names lead to from here.
    pub fn join_all(&self, names: &Vec<String>) -> (location: Self)
        ensures
            location@ == self@.below(text::texts(names@)),
    {
        let mut location = self.clone();
        let mut more = text::copy_of_all(names);
        let ghost before = location@.names;
        location.names.append(&mut more);
        assert(location@.names =~= before + text::texts(names@));
        location
    }
}

// ---------------------------------------------------------------------------
// Where things are kept
// ---------------------------------------------------------------------------

/// The file that holds the launcher's state.
pub fn state_path(app_data: &Location) -> (path: Location)
    ensures
        path@ == app_data@.below(seq!["state.json"@]),
{
    app_data.join("state.json")
}

/// The file that a new state is written to before it takes the old one's place.
pub fn state_draft_path(app_data: &Location) -> (path: Location)
    ensures
        path@ == app_data@.below(seq!["state.json.tmp"@]),
{
    app_data.join("state.json.tmp")
}

/// The file that an unreadable state is moved to, for diagnosis.
pub fn state_corrupt_path(app_data: &Location) -> (path: Location)
    ensures
        path@ == app_data@.below(seq!["state.json.corrupt"@]),
{
    app_data.join("state.json.corrupt")
}

/// The directory that holds every installed game.
pub fn games_dir(app_data: &Location) -> (path: Location)
    ensures
        path@ == app_data@.below(seq!["games"@]),
{
    app_data.join("games")
}

/// The place of the directory that one game is installed in.
pub open spec fn install_dir_of(app_data: Place, product_id: i64) -> Place {
    app_data.below(seq!["games"@, number::decimal_of(product_id as int)])
}

/// The directory that one game is installed in.
pub fn install_dir(app_data: &Location, product_id: i64) -> (path: Location)
    ensures
        path@ == install_dir_of(app_data@, product_id),
{
    let id = number::decimal(product_id);
    let path = games_dir(app_data).join(id.as_str());
    assert(path@.names =~= install_dir_of(app_data@, product_id).names);
    path
}

/// The directory that builds are downloaded to.
pub fn downloads_dir(app_data: &Location) -> (path: Location)
    ensures
        path@ == app_data@.below(seq!["downloads"@]),
{
    app_data.join("downloads")
}

/// The file that the archive of one game is downloaded to.
pub fn archive_path(downloads: &Location, product_id: i64) -> (path: Location)
    ensures
        path@ == downloads@.below(seq![number::decimal_of(product_id as int) + ".download"@]),
{
    let mut name = number::decimal(product_id);
    name.append(".download");
    downloads.join(name.as_str())
}

// ---------------------------------------------------------------------------
// Laws
// ---------------------------------------------------------------------------

/// A text with no slash in it.
pub open spec fn has_no_slash(text: Seq<char>) -> bool {
    forall|i: int| 0 <= i < text.len() ==> text[i] != '/'
}

proof fn lemma_segments_not_empty(text: Seq<char>)
    ensures
        segments(text).len() >= 1,
    decreases text.len(),
{
    if text.len() > 0 {
        lemma_segments_not_empty(text.drop_last());
    }
}

/// What stands between the slashes has no slash in it, and put back together it
/// is the text again.
pub proof fn law_segments_are_what_slashes_part(text: Seq<char>)
    ensures
        segments(text).len() >= 1,
        forall|i: int| 0 <= i < segments(text).len() ==> has_no_slash(#[trigger] segments(text)[i]),
        slash_joined(segments(text)) == text,
    decreases text.len(),
{
    if text.len() > 0 {
        let before = segments(text.drop_last());
        law_segments_are_what_slashes_part(text.drop_last());
        if text.last() == '/' {
            assert(segments(text).drop_last() =~= before);
            assert(slash_joined(segments(text)) =~= text.drop_last().push('/'));
        } else {
            let all = segments(text);
            assert(all.drop_last() =~= before.drop_last());
            assert(all.last() == before.last().push(text.last()));
            assert(has_no_slash(before[before.len() - 1]));
            assert forall|i: int| 0 <= i < all.len() implies has_no_slash(#[trigger] all[i]) by {
                if i < before.len() - 1 {
                    assert(all[i] == before[i]);
                }
            }
            assert(slash_joined(all) =~= slash_joined(before).push(text.last()));
            assert(text =~= text.drop_last().push(text.last()));
        }
    }
}

/// Each character of a piece is one of the text.
pub(crate) proof fn lemma_segments_hold_the_characters(text: Seq<char>, i: int, j: int)
    requires
        0 <= i < segments(text).len(),
        0 <= j < segments(text)[i].len(),
    ensures
        text.contains(segments(text)[i][j]),
    decreases text.len(),
{
    if text.len() > 0 {
        let before = segments(text.drop_last());
        lemma_segments_not_empty(text.drop_last());
        if i < before.len() - 1 || text.last() == '/' {
            assert(segments(text)[i] == before[i]);
            lemma_segments_hold_the_characters(text.drop_last(), i, j);
            lemma_prefix_holds(text, segments(text)[i][j]);
        } else if j < before.last().len() {
            assert(segments(text)[i][j] == before[i][j]);
            lemma_segments_hold_the_characters(text.drop_last(), i, j);
            lemma_prefix_holds(text, segments(text)[i][j]);
        } else {
            assert(text[text.len() - 1] == segments(text)[i][j]);
        }
    }
}

proof fn lemma_prefix_holds(text: Seq<char>, c: char)
    requires
        text.len() > 0,
        text.drop_last().contains(c),
    ensures
        text.contains(c),
{
    let k = choose|k: int| 0 <= k < text.drop_last().len() && text.drop_last()[k] == c;
    assert(text[k] == c);
}

/// Different games are installed in different directories.
pub proof fn law_games_do_not_share_a_directory(app_data: Place, a: i64, b: i64)
    requires
        install_dir_of(app_data, a) == install_dir_of(app_data, b),
    ensures
        a == b,
{
    assert(install_dir_of(app_data, a).names.last() == number::decimal_of(a as int));
    assert(install_dir_of(app_data, b).names.last() == number::decimal_of(b as int));
    number::law_decimal_tells_numbers_apart(a as int, b as int);
}

/// A slash parts a text: what stands before it and what stands after it are read each on
/// its own. A text without a slash is one piece.
pub proof fn law_a_slash_parts_a_text(a: Seq<char>, b: Seq<char>)
    ensures
        segments(a + seq!['/'] + b) == segments(a) + segments(b),
        (forall|i: int| 0 <= i < a.len() ==> a[i] != '/') ==> segments(a) == seq![a],
    decreases a.len() + b.len(),
{
    let text = a + seq!['/'] + b;
    if b.len() == 0 {
        assert(text.drop_last() =~= a);
        assert(segments(text) =~= segments(a) + segments(b));
    } else {
        law_a_slash_parts_a_text(a, b.drop_last());
        lemma_segments_not_empty(b.drop_last());
        assert(text.drop_last() =~= a + seq!['/'] + b.drop_last());
        let before = segments(a) + segments(b.drop_last());
        assert(before.last() == segments(b.drop_last()).last());
        assert(segments(text) =~= segments(a) + segments(b));
    }
    if forall|i: int| 0 <= i < a.len() ==> a[i] != '/' {
        if a.len() == 0 {
            assert(a =~= Seq::<char>::empty());
            assert(segments(a) =~= seq![a]);
        } else {
            let shorter = a.drop_last();
            assert forall|i: int| 0 <= i < shorter.len() implies shorter[i] != '/' by {
                assert(shorter[i] == a[i]);
            }
            law_a_slash_parts_a_text(shorter, Seq::empty());
            assert(a[a.len() - 1] != '/');
            assert(shorter.push(a.last()) =~= a);
            let before = segments(shorter);
            assert(before == seq![shorter]);
            assert(before.last() == shorter);
            assert(segments(a) == before.drop_last().push(before.last().push(a.last())));
            assert(segments(a) =~= seq![a]);
        }
    }
}

/// Joining puts one slash between each two pieces and nothing else.
pub proof fn law_joining_puts_slashes_between(pieces: Seq<Seq<char>>, more: Seq<char>)
    ensures
        slash_joined(seq![more]) == more,
        pieces.len() > 0 ==> slash_joined(pieces.push(more)) == slash_joined(pieces) + seq!['/']
            + more,
{
    assert(pieces.push(more).drop_last() =~= pieces);
    if pieces.len() > 0 {
        assert(slash_joined(pieces.push(more)) =~= slash_joined(pieces) + seq!['/'] + more);
    }
}

/// What is joined with slashes comes apart again, piece by piece.
pub proof fn law_joined_pieces_come_apart(pieces: Seq<Seq<char>>)
    requires
        pieces.len() > 0,
        forall|i: int, j: int|
            0 <= i < pieces.len() && 0 <= j < pieces[i].len() ==> #[trigger] pieces[i][j] != '/',
    ensures
        segments(slash_joined(pieces)) == pieces,
    decreases pieces.len(),
{
    let last = pieces.last();
    assert forall|j: int| 0 <= j < last.len() implies last[j] != '/' by {
        assert(pieces[pieces.len() - 1][j] != '/');
    }
    law_a_slash_parts_a_text(last, Seq::empty());
    if pieces.len() == 1 {
        assert(pieces =~= seq![last]);
    } else {
        let shorter = pieces.drop_last();
        assert forall|i: int, j: int|
            0 <= i < shorter.len() && 0 <= j < shorter[i].len() implies #[trigger] shorter[i][j]
            != '/' by {
            assert(pieces[i][j] != '/');
        }
        law_joined_pieces_come_apart(shorter);
        law_joining_puts_slashes_between(shorter, last);
        assert(shorter.push(last) =~= pieces);
        law_a_slash_parts_a_text(slash_joined(shorter), last);
        assert(segments(slash_joined(pieces)) =~= pieces);
    }
}

proof fn lemma_names_of_two_rows(a: Seq<Seq<char>>, b: Seq<Seq<char>>)
    ensures
        (a + b).filter(naming()) == a.filter(naming()) + b.filter(naming()),
    decreases b.len(),
{
    reveal(Seq::filter);
    if b.len() == 0 {
        assert(a + b =~= a);
        assert(a.filter(naming()) + b.filter(naming()) =~= a.filter(naming()));
    } else {
        lemma_names_of_two_rows(a, b.drop_last());
        assert((a + b).drop_last() =~= a + b.drop_last());
        assert((a + b).last() == b.last());
        assert((a + b).filter(naming()) =~= a.filter(naming()) + b.filter(naming()));
    }
}

/// The names along a path are those before a slash and then those after it. A text
/// without a slash is one name, unless it is empty or a single dot, which name nothing.
pub proof fn law_a_path_names_what_its_parts_name(a: Seq<char>, b: Seq<char>)
    ensures
        path_names(a + seq!['/'] + b) == path_names(a) + path_names(b),
        (forall|i: int| 0 <= i < a.len() ==> a[i] != '/') ==> path_names(a) == (if a.len() == 0
            || (a.len() == 1 && a[0] == '.') {
            Seq::<Seq<char>>::empty()
        } else {
            seq![a]
        }),
{
    reveal(Seq::filter);
    law_a_slash_parts_a_text(a, b);
    lemma_names_of_two_rows(segments(a), segments(b));
    if forall|i: int| 0 <= i < a.len() ==> a[i] != '/' {
        let one = seq![a];
        assert(one.drop_last() =~= Seq::<Seq<char>>::empty());
        assert(Seq::<Seq<char>>::empty().filter(naming()) =~= Seq::<Seq<char>>::empty());
        if a.len() == 1 && a[0] == '.' {
            assert(a =~= seq!['.']);
        } else if a.len() > 0 {
            assert(is_name(a));
            assert(path_names(a) =~= seq![a]);
        }
    }
}

/// Going on from a place keeps the directory and the names so far, and adds the new names
/// behind them, in order.
pub proof fn law_names_lead_on(place: Place, names: Seq<Seq<char>>)
    ensures
        place.below(names).base == place.base,
        place.below(names).names.len() == place.names.len() + names.len(),
        forall|i: int|
            0 <= i < place.names.len() ==> #[trigger] place.below(names).names[i]
                == place.names[i],
        forall|i: int|
            0 <= i < names.len() ==> place.below(names).names[place.names.len() + i]
                == #[trigger] names[i],
{
}

/// A game's directory is the one named by its product id, in decimal, in the games'
/// directory.
pub proof fn law_a_game_lies_under_its_id(app_data: Place, product_id: i64)
    ensures
        install_dir_of(app_data, product_id).base == app_data.base,
        install_dir_of(app_data, product_id).names == app_data.names.push("games"@).push(
            number::decimal_of(product_id as int),
        ),
{
    assert(install_dir_of(app_data, product_id).names =~= app_data.names.push("games"@).push(
        number::decimal_of(product_id as int),
    ));
}

/// A location reads as its directory's text and its names' texts, each in its place.
pub proof fn law_a_location_reads_as_its_texts(location: Location, i: int)
    requires
        0 <= i < location.names@.len(),
    ensures
        location@.base == location.base@,
        location@.names.len() == location.names@.len(),
        location@.names[i] == location.names@[i]@,
        place_in(Some(location)) == Some(location@),
        place_in(None) is None,
{
}

} // verus!
