//! Download, verify, extract: what is decided along the way.
//!
//! The bytes themselves stream past: [`Download`] sees each chunk once, and
//! [`Extraction`] each entry of the archive once.

use vstd::prelude::*;
use vstd::string::*;

use crate::api::DownloadTicket;
use crate::archive;
use crate::executable;
use crate::executable::pick_executable;
use crate::gate;
use crate::number;
use crate::paths;
use crate::paths::Location;
use crate::state::InstalledGame;
use crate::text;

verus! {

// ---------------------------------------------------------------------------
// Errors
// ---------------------------------------------------------------------------

/// Why a build was not installed or a game not started.
#[derive(Debug, PartialEq, Eq)]
pub enum InstallError {
    Download(String),
    Checksum,
    Archive(String),
    Io(String),
}

impl InstallError {
    /// The error in words.
    pub open spec fn words(&self) -> Seq<char> {
        match self {
            InstallError::Download(detail) => "download failed: "@ + detail@,
            InstallError::Checksum => {
                "this build didn't match its checksum and was not installed"@
            },
            InstallError::Archive(detail) => "the build archive is damaged: "@ + detail@,
            InstallError::Io(detail) => detail@,
        }
    }

    /// The error in words meant for a person.
    pub fn describe(&self) -> (words: String)
        ensures
            words@ == self.words(),
    {
        match self {
            InstallError::Download(detail) => "download failed: ".to_owned().concat(
                detail.as_str(),
            ),
            InstallError::Checksum => {
                "this build didn't match its checksum and was not installed".to_owned()
            },
            InstallError::Archive(detail) => "the build archive is damaged: ".to_owned().concat(
                detail.as_str(),
            ),
            InstallError::Io(detail) => detail.clone(),
        }
    }
}

/// The error that the storage's status means, if any. A 403 is usually an expired
/// link; the caller can ask for a fresh one.
pub fn storage_refusal(status: u16) -> (error: Option<InstallError>)
    ensures
        200 <= status < 300 ==> error is None,
        !(200 <= status < 300) ==> (error matches Some(InstallError::Download(detail)) && detail@
            == "storage returned "@ + number::decimal_of(status as int)),
{
    if 200 <= status && status < 300 {
        return None;
    }
    let code = number::decimal(status as i64);
    Some(InstallError::Download("storage returned ".to_owned().concat(code.as_str())))
}

// ---------------------------------------------------------------------------
// Checksums
// ---------------------------------------------------------------------------

/// The lower-case hexadecimal digit of a number below 16.
pub open spec fn hex_digit(value: int) -> char {
    if value < 10 {
        (48 + value) as char
    } else {
        (87 + value) as char
    }
}

/// Bytes in lower-case hexadecimal, two digits for each, the higher one first.
pub open spec fn hex_text(bytes: Seq<u8>) -> Seq<char> {
    Seq::new(
        2 * bytes.len(),
        |i: int|
            if i % 2 == 0 {
                hex_digit(bytes[i / 2] as int / 16)
            } else {
                hex_digit(bytes[i / 2] as int % 16)
            },
    )
}

/// Calls `hex::encode`: the bytes in lower-case hexadecimal.
#[verifier::external_body]
fn hex_encode(bytes: &[u8]) -> (text: String)
    ensures
        text@ == hex_text(bytes@),
{
    hex::encode(bytes)
}

/// Declares `sha2::Sha256`, a SHA-256 computation under way.
#[verifier::external_type_specification]
#[verifier::external_body]
pub struct ExSha256(sha2::Sha256);

/// The bytes that a SHA-256 computation has taken in, in order.
pub uninterp spec fn taken_in(hasher: sha2::Sha256) -> Seq<u8>;

/// The SHA-256 digest of the given bytes, as `sha2` computes it.
pub uninterp spec fn sha256_of(bytes: Seq<u8>) -> Seq<u8>;

/// Calls `sha2::Sha256::new`: a computation that has taken in nothing.
#[verifier::external_body]
fn new_hasher() -> (hasher: sha2::Sha256)
    ensures
        taken_in(hasher) == Seq::<u8>::empty(),
{
    sha2::Digest::new()
}

/// Calls `sha2::Sha256::update`: the bytes are taken in after those before them. The
/// computation counts what it takes in and does not go beyond what a `u64` counts.
#[verifier::external_body]
fn update_hasher(hasher: &mut sha2::Sha256, bytes: &[u8])
    requires
        taken_in(*old(hasher)).len() + bytes@.len() <= u64::MAX,
    ensures
        taken_in(*final(hasher)) == taken_in(*old(hasher)) + bytes@,
{
    sha2::Digest::update(hasher, bytes)
}

/// How many bytes SHA-256 is defined for: their count in bits goes into the digest
/// as a `u64`.
pub const SHA256_LIMIT: u64 = 0x2000_0000_0000_0000;

/// Calls `sha2::Sha256::finalize`: the digest of all that was taken in, which is
/// named [`sha256_of`] and is 32 bytes long. It is computed below [`SHA256_LIMIT`]
/// only.
#[verifier::external_body]
fn finish_hasher(hasher: sha2::Sha256) -> (digest: Vec<u8>)
    requires
        taken_in(hasher).len() < SHA256_LIMIT,
    ensures
        digest@ == sha256_of(taken_in(hasher)),
        digest@.len() == 32,
{
    sha2::Digest::finalize(hasher).to_vec()
}

/// A digest is what a checksum says: the same hexadecimal digits, in either case,
/// with white space around them or none.
pub open spec fn is_checksum_of(expected: Seq<char>, digest: Seq<u8>) -> bool {
    text::ascii_lowercase(hex_text(digest)) == text::ascii_lowercase(text::trimmed(expected))
}

/// Whether a digest is what a checksum says.
pub fn checksum_matches(digest: &[u8], expected: &str) -> (yes: bool)
    ensures
        yes == is_checksum_of(expected@, digest@),
{
    let actual = hex_encode(digest);
    let expected = text::trim(expected);
    text::same_text_ignoring_case(actual.as_str(), expected.as_str())
}

// ---------------------------------------------------------------------------
// Downloading
// ---------------------------------------------------------------------------

/// How much time passes between two reports of a download's progress, in
/// milliseconds. Reporting each chunk would make the launcher slower than the
/// download.
pub const REPORT_EVERY_MILLIS: u128 = 250;

/// Whether another report is due.
pub fn report_is_due(elapsed_millis: u128) -> (yes: bool)
    ensures
        yes == (elapsed_millis >= REPORT_EVERY_MILLIS),
{
    elapsed_millis >= REPORT_EVERY_MILLIS
}

/// A download under way.
pub struct Download {
    hasher: sha2::Sha256,
    received: u64,
    total: u64,
}

impl Download {
    /// The bytes that have come in, in order.
    pub closed spec fn bytes(&self) -> Seq<u8> {
        taken_in(self.hasher)
    }

    /// How many bytes the server announced, 0 where it did not.
    pub closed spec fn announced(&self) -> u64 {
        self.total
    }

    /// The count of the bytes is right.
    pub closed spec fn wf(&self) -> bool {
        self.received == taken_in(self.hasher).len()
    }

    /// A download of which nothing has come in.
    pub fn new(content_length: Option<u64>) -> (download: Self)
        ensures
            download.wf(),
            download.bytes() == Seq::<u8>::empty(),
            download.announced() == (match content_length {
                Some(length) => length,
                None => 0,
            }),
    {
        let total: u64 = match content_length {
            Some(length) => length,
            None => 0,
        };
        Download { hasher: new_hasher(), received: 0, total }
    }

    /// Takes in the next chunk.
    pub fn absorb(&mut self, chunk: &[u8])
        requires
            old(self).wf(),
            old(self).bytes().len() + chunk@.len() <= u64::MAX,
        ensures
            final(self).wf(),
            final(self).bytes() == old(self).bytes() + chunk@,
            final(self).announced() == old(self).announced(),
    {
        update_hasher(&mut self.hasher, chunk);
        self.received = self.received + chunk.len() as u64;
    }

    /// How many bytes have come in.
    pub fn received(&self) -> (count: u64)
        requires
            self.wf(),
        ensures
            count == self.bytes().len(),
    {
        self.received
    }

    /// How many bytes the server announced, 0 where it did not.
    pub fn total(&self) -> (count: u64)
        ensures
            count == self.announced(),
    {
        self.total
    }

    /// Ends the download. Where a checksum is known the bytes must have it; where
    /// none is known they are taken as they are.
    pub fn finish(self, expected_sha256: Option<&str>) -> (finished: Result<
        FinishedDownload,
        InstallError,
    >)
        requires
            self.wf(),
            expected_sha256 is Some ==> self.bytes().len() < SHA256_LIMIT,
        ensures
            match expected_sha256 {
                Some(expected) => finished is Ok <==> is_checksum_of(
                    expected@,
                    sha256_of(self.bytes()),
                ),
                None => finished is Ok,
            },
            match finished {
                Ok(download) => {
                    &&& download.bytes() == self.bytes()
                    &&& download.expected() == (match expected_sha256 {
                        Some(expected) => Some(expected@),
                        None => None,
                    })
                },
                Err(error) => error == InstallError::Checksum,
            },
    {
        let ghost bytes = self.bytes();
        let received: u64 = self.received;
        match expected_sha256 {
            Some(expected) => {
                let digest = finish_hasher(self.hasher);
                if !checksum_matches(digest.as_slice(), expected) {
                    return Err(InstallError::Checksum);
                }
                let expected = Some(expected.to_owned());
                Ok(FinishedDownload { received, expected, bytes: Ghost(bytes) })
            },
            None => Ok(FinishedDownload { received, expected: None, bytes: Ghost(bytes) }),
        }
    }
}

/// A download that is done. Only [`Download::finish`] makes one, so its bytes have the
/// checksum that was known of them, if one was.
pub struct FinishedDownload {
    received: u64,
    expected: Option<String>,
    bytes: Ghost<Seq<u8>>,
}

impl FinishedDownload {
    /// The bytes that came in, in order.
    pub closed spec fn bytes(&self) -> Seq<u8> {
        self.bytes@
    }

    /// The checksum that was known of them.
    pub closed spec fn expected(&self) -> Option<Seq<char>> {
        text::text_in(self.expected)
    }

    /// The bytes have the checksum that was known of them, if one was.
    pub open spec fn passed(&self) -> bool {
        self.expected() matches Some(expected) ==> is_checksum_of(
            expected,
            sha256_of(self.bytes()),
        )
    }

    #[verifier::type_invariant]
    spec fn inv(&self) -> bool {
        self.received == self.bytes().len() && self.passed()
    }

    /// How many bytes came in.
    pub fn received(&self) -> (count: u64)
        ensures
            count == self.bytes().len(),
            self.passed(),
    {
        proof {
            use_type_invariant(self);
        }
        self.received
    }

    /// Whether a checksum was known, and the bytes were held against it.
    pub fn is_checked(&self) -> (yes: bool)
        ensures
            yes == self.expected() is Some,
            self.passed(),
    {
        proof {
            use_type_invariant(self);
        }
        self.expected.is_some()
    }
}

// ---------------------------------------------------------------------------
// Extracting
// ---------------------------------------------------------------------------

/// What to do with one entry of an archive.
#[derive(Debug, PartialEq, Eq)]
pub enum EntryAction {
    /// The entry is unsafe or names nothing.
    Skip,
    /// Make a directory at this path.
    MakeDir(Location),
    /// Write a file at this path.
    WriteFile(Location),
}

/// What an entry comes to: where something is written, and whether that is a file.
pub open spec fn wanted(
    drives: bool,
    install_dir: paths::Place,
    entry: Seq<char>,
    is_dir: bool,
) -> Option<(paths::Place, bool)> {
    match archive::entry_target(drives, install_dir, entry) {
        Some(target) => Some((target, !is_dir)),
        None => None,
    }
}

impl EntryAction {
    /// Where something is written, and whether that is a file.
    pub open spec fn writes(&self) -> Option<(paths::Place, bool)> {
        match self {
            EntryAction::Skip => None,
            EntryAction::MakeDir(path) => Some((path@, false)),
            EntryAction::WriteFile(path) => Some((path@, true)),
        }
    }
}

/// The extraction of an archive under way.
#[derive(Debug, PartialEq, Eq)]
pub struct Extraction {
    /// Whether this machine knows drives.
    pub drives: bool,
    /// The files written so far, by their paths in the archive, for finding the
    /// executable.
    pub written: Vec<String>,
}

impl Extraction {
    /// What was recorded is a path that extraction accepts.
    pub open spec fn wf(&self) -> bool {
        forall|i: int|
            0 <= i < self.written@.len() ==> archive::entry_names(
                self.drives,
                (#[trigger] self.written@[i])@,
            ) is Some
    }

    /// An extraction of which nothing is done, on a machine that knows drives or
    /// does not.
    pub fn on(drives: bool) -> (extraction: Self)
        ensures
            extraction.wf(),
            extraction.drives == drives,
            extraction.written@ == Seq::<String>::empty(),
    {
        Extraction { drives, written: Vec::new() }
    }

    /// An extraction of which nothing is done, on this machine. Whether it knows drives
    /// is the machine's answer, and nothing is claimed of it; [`Extraction::on`] takes
    /// that answer.
    pub fn new() -> (extraction: Self)
        ensures
            extraction.wf(),
            extraction.written@ == Seq::<String>::empty(),
    {
        Extraction::on(archive::knows_drives())
    }

    /// Decides on the next entry. A file that is to be written is recorded.
    pub fn take_entry(
        &mut self,
        install_dir: &Location,
        entry: &str,
        is_dir: bool,
    ) -> (action: EntryAction)
        ensures
            old(self).wf() ==> final(self).wf(),
            final(self).drives == old(self).drives,
            action.writes() == wanted(old(self).drives, install_dir@, entry@, is_dir),
            text::texts(final(self).written@) == (if action is WriteFile {
                text::texts(old(self).written@).push(archive::slashed(entry@))
            } else {
                text::texts(old(self).written@)
            }),
    {
        match archive::safe_join_on(self.drives, install_dir, entry) {
            Some(target) => {
                if is_dir {
                    EntryAction::MakeDir(target)
                } else {
                    let ghost before = text::texts(self.written@);
                    self.written.push(archive::with_slashes(entry));
                    assert(text::texts(self.written@) =~= before.push(archive::slashed(entry@)));
                    proof {
                        archive::law_backslashes_are_slashes(self.drives, entry@);
                    }
                    EntryAction::WriteFile(target)
                }
            },
            None => EntryAction::Skip,
        }
    }

    /// Ends the extraction: the build now on disk, with the executable found among
    /// its files. `download` is the download that it came of.
    pub fn finish(
        self,
        install_dir: String,
        platform: &str,
        download: FinishedDownload,
    ) -> (installed: Installed)
        ensures
            installed.install_dir == install_dir,
            executable::is_pick(
                text::text_in(installed.exe_path),
                text::texts(self.written@),
                platform@,
            ),
            installed.bytes == download.bytes().len(),
            installed.download == download,
            download.passed(),
    {
        let exe_path = pick_executable(self.written.as_slice(), platform);
        let bytes: u64 = download.received();
        Installed { install_dir, exe_path, bytes, download }
    }
}

/// A build on disk.
pub struct Installed {
    pub install_dir: String,
    pub exe_path: Option<String>,
    pub bytes: u64,
    /// The download that the build came of: there is no build without one.
    pub download: FinishedDownload,
}

/// What a player is told of a build that came without a checksum.
pub open spec fn unchecked_message() -> Seq<char> {
    "This build came without a checksum, so it was installed without checking it."@
}

impl Installed {
    /// What the player is told of the installation, if there is anything to tell: that
    /// nothing was checked, exactly where no checksum was known.
    pub fn notice(&self) -> (words: Option<String>)
        ensures
            text::text_in(words) == (if self.download.expected() is None {
                Some(unchecked_message())
            } else {
                None
            }),
    {
        if self.download.is_checked() {
            None
        } else {
            Some(
                "This build came without a checksum, so it was installed without checking it.".to_owned(),
            )
        }
    }
}

/// The record of a build that was installed at the time `at`.
pub open spec fn record_for(
    product_id: i64,
    title: String,
    ticket: DownloadTicket,
    installed: Installed,
    at: i64,
) -> InstalledGame {
    InstalledGame {
        product_id,
        title,
        build_version: ticket.build_version,
        install_dir: installed.install_dir,
        exe_path: installed.exe_path,
        installed_at: at,
        last_verified_at: at,
        owned: true,
        bytes: installed.bytes,
    }
}

/// The record of a build that was just installed. The download itself was a check
/// of ownership that passed, so it counts as one. A build whose bytes do not have the
/// checksum that was known of them comes to no record.
pub fn installed_game(
    product_id: i64,
    title: String,
    ticket: &DownloadTicket,
    installed: Installed,
    at: i64,
) -> (game: InstalledGame)
    ensures
        game == record_for(product_id, title, *ticket, installed, at),
        installed.download.passed(),
{
    proof {
        use_type_invariant(&installed.download);
    }
    InstalledGame {
        product_id,
        title,
        build_version: ticket.build_version,
        install_dir: installed.install_dir,
        exe_path: installed.exe_path,
        installed_at: at,
        last_verified_at: at,
        owned: true,
        bytes: installed.bytes,
    }
}

// ---------------------------------------------------------------------------
// Laws
// ---------------------------------------------------------------------------

/// Whatever an archive holds, what its extraction writes lies below the install
/// directory: the way there leads through it and on by plain names, none of which climbs.
pub proof fn law_extraction_stays_below_the_install_dir(
    drives: bool,
    install_dir: paths::Place,
    entry: Seq<char>,
    is_dir: bool,
)
    requires
        wanted(drives, install_dir, entry, is_dir) is Some,
    ensures
        (wanted(drives, install_dir, entry, is_dir)->0).0 == install_dir.below(
            archive::entry_names(drives, entry)->0,
        ),
        archive::entry_names(drives, entry)->0.len() > 0,
        forall|i: int|
            0 <= i < archive::entry_names(drives, entry)->0.len() ==> archive::is_plain_name(
                #[trigger] archive::entry_names(drives, entry)->0[i],
            ),
{
    archive::law_accepted_names_are_plain(drives, entry);
}

/// A file that was recorded while extracting is found again by the record: it
/// resolves to the path that the file was written to.
pub proof fn law_recorded_files_are_found_again(
    drives: bool,
    install_dir: paths::Place,
    entry: Seq<char>,
)
    ensures
        archive::entry_target(drives, install_dir, archive::slashed(entry))
            == archive::entry_target(drives, install_dir, entry),
{
    archive::law_backslashes_are_slashes(drives, entry);
}

/// A game that was just installed launches offline until the grace is over.
pub proof fn law_a_fresh_install_plays_offline_for_the_grace(
    product_id: i64,
    title: String,
    ticket: DownloadTicket,
    installed: Installed,
    at: i64,
    now: int,
)
    requires
        at > 0,
    ensures
        gate::ruling(
            None,
            record_for(product_id, title, ticket, installed, at).last_verified_at as int,
            now,
            gate::OWNERSHIP_GRACE_SECS as int,
        ) == gate::Ruling::Allow <==> at <= now <= at + gate::OWNERSHIP_GRACE_SECS,
{
}

proof fn lemma_hex_digits(bytes: Seq<u8>)
    ensures
        text::ascii_lowercase(hex_text(bytes)) == hex_text(bytes),
        text::trimmed(hex_text(bytes)) == hex_text(bytes),
{
    let hex = hex_text(bytes);
    assert forall|i: int| 0 <= i < hex.len() implies ('0' <= #[trigger] hex[i] <= '9' || 'a'
        <= hex[i] <= 'f') by {
        assert(0 <= bytes[i / 2] as int / 16 < 16);
    }
    assert(text::ascii_lowercase(hex) =~= hex);
    if hex.len() > 0 {
        assert(!text::is_white(hex[0]));
        assert(!text::is_white(hex[hex.len() - 1]));
    }
}

/// The hexadecimal form of a digest is a checksum of it.
pub proof fn law_a_digest_matches_itself(digest: Seq<u8>)
    ensures
        is_checksum_of(hex_text(digest), digest),
{
    lemma_hex_digits(digest);
}

/// A checksum fits one digest at most, so no other one passes.
pub proof fn law_a_checksum_fits_one_digest(expected: Seq<char>, a: Seq<u8>, b: Seq<u8>)
    requires
        is_checksum_of(expected, a),
        is_checksum_of(expected, b),
    ensures
        a == b,
{
    lemma_hex_digits(a);
    lemma_hex_digits(b);
    assert(hex_text(a).len() == hex_text(b).len());
    assert forall|i: int| 0 <= i < a.len() implies a[i] == b[i] by {
        assert(hex_text(a)[2 * i] == hex_text(b)[2 * i]);
        assert(hex_text(a)[2 * i + 1] == hex_text(b)[2 * i + 1]);
        assert((2 * i) / 2 == i && (2 * i + 1) / 2 == i);
        assert((2 * i) % 2 == 0 && (2 * i + 1) % 2 == 1);
    }
    assert(a =~= b);
}

/// Bytes are written one after the other, each as two digits of sixteen: one byte more adds
/// its two digits behind, which together read as the byte.
pub proof fn law_each_byte_is_two_digits(bytes: Seq<u8>, byte: u8)
    ensures
        hex_text(Seq::empty()) == Seq::<char>::empty(),
        hex_text(bytes.push(byte)) == hex_text(bytes) + hex_text(seq![byte]),
        hex_text(seq![byte]).len() == 2,
        ({
            let value = |c: char|
                if '0' <= c <= '9' {
                    c as int - '0' as int
                } else {
                    c as int - 'a' as int + 10
                };
            &&& forall|i: int|
                0 <= i < 2 ==> '0' <= #[trigger] hex_text(seq![byte])[i] <= '9' || 'a' <= hex_text(
                    seq![byte],
                )[i] <= 'f'
            &&& byte == 16 * value(hex_text(seq![byte])[0]) + value(hex_text(seq![byte])[1])
        }),
{
    let more = bytes.push(byte);
    let one = seq![byte];
    assert(hex_text(Seq::empty()) =~= Seq::<char>::empty());
    assert forall|i: int| 0 <= i < 2 * more.len() implies hex_text(more)[i] == (hex_text(bytes)
        + hex_text(one))[i] by {
        if i < 2 * bytes.len() {
            assert(more[i / 2] == bytes[i / 2]);
        } else {
            let k = i - 2 * bytes.len();
            assert(i / 2 == bytes.len() && k / 2 == 0 && i % 2 == k % 2);
        }
    }
    assert(hex_text(more) =~= hex_text(bytes) + hex_text(one));
    assert(one[0int / 2] == byte && one[1int / 2] == byte);
    assert(0 <= byte as int / 16 < 16 && 0 <= byte as int % 16 < 16);
}

/// A checksum that a digest passes has, between the white space around it, as many
/// characters as the digest has digits, and each is that digit in lower or in upper case.
pub proof fn law_a_checksum_is_the_digits(expected: Seq<char>, digest: Seq<u8>)
    ensures
        is_checksum_of(expected, digest) <==> {
            &&& text::trimmed(expected).len() == hex_text(digest).len()
            &&& forall|i: int|
                0 <= i < hex_text(digest).len() ==> {
                    let c = #[trigger] text::trimmed(expected)[i];
                    c == hex_text(digest)[i] || ('A' <= c <= 'Z' && c as int + 32
                        == hex_text(digest)[i] as int)
                }
        },
{
    let inner = text::trimmed(expected);
    let hex = hex_text(digest);
    lemma_hex_digits(digest);
    let low = text::ascii_lowercase(inner);
    if is_checksum_of(expected, digest) {
        assert(low.len() == inner.len());
        assert forall|i: int| 0 <= i < hex.len() implies {
            let c = #[trigger] inner[i];
            c == hex[i] || ('A' <= c <= 'Z' && c as int + 32 == hex[i] as int)
        } by {
            assert(low[i] == hex[i]);
            text::law_only_upper_case_letters_change(inner, i);
        }
    }
    if inner.len() == hex.len() && forall|i: int|
        0 <= i < hex.len() ==> {
            let c = #[trigger] inner[i];
            c == hex[i] || ('A' <= c <= 'Z' && c as int + 32 == hex[i] as int)
        } {
        assert forall|i: int| 0 <= i < hex.len() implies low[i] == hex[i] by {
            text::law_only_upper_case_letters_change(inner, i);
            assert(text::ascii_lowercase(hex)[i] == hex[i]);
            text::law_only_upper_case_letters_change(hex, i);
            let c = inner[i];
            assert(c == hex[i] || ('A' <= c <= 'Z' && c as int + 32 == hex[i] as int));
        }
        assert(low =~= hex);
    }
}

/// An entry is written exactly where the archive's rules accept it, as a file unless it is
/// a directory; what is written lies where those rules put it.
pub proof fn law_an_accepted_entry_is_written(
    drives: bool,
    install_dir: paths::Place,
    entry: Seq<char>,
    is_dir: bool,
)
    ensures
        archive::entry_target(drives, install_dir, entry) is None ==> wanted(
            drives,
            install_dir,
            entry,
            is_dir,
        ) is None,
        archive::entry_target(drives, install_dir, entry) matches Some(target) ==> wanted(
            drives,
            install_dir,
            entry,
            is_dir,
        ) == Some((target, !is_dir)),
{
}

/// What an action writes: a directory or a file at its location, or nothing.
pub proof fn law_an_action_writes_at_its_location(location: Location)
    ensures
        (EntryAction::Skip).writes() is None,
        (EntryAction::MakeDir(location)).writes() == Some((location@, false)),
        (EntryAction::WriteFile(location)).writes() == Some((location@, true)),
{
}

/// The record of a build says what was installed, of which build, where, with what to run,
/// how large, and that it was installed and confirmed as owned at that time.
pub proof fn law_a_record_tells_the_build(
    product_id: i64,
    title: String,
    ticket: DownloadTicket,
    installed: Installed,
    at: i64,
)
    ensures
        ({
            let record = record_for(product_id, title, ticket, installed, at);
            &&& record.product_id == product_id
            &&& record.title == title
            &&& record.build_version == ticket.build_version
            &&& record.install_dir == installed.install_dir
            &&& record.exe_path == installed.exe_path
            &&& record.bytes == installed.bytes
            &&& record.installed_at == at
            &&& record.last_verified_at == at
            &&& record.owned
        }),
{
}

/// An error is told with its own detail.
pub proof fn law_install_errors_are_told_with_their_detail(detail: String)
    ensures
        (InstallError::Download(detail)).words() == "download failed: "@ + detail@,
        (InstallError::Archive(detail)).words() == "the build archive is damaged: "@ + detail@,
        (InstallError::Io(detail)).words() == detail@,
        (InstallError::Checksum).words()
            == "this build didn't match its checksum and was not installed"@,
{
}

} // verus!
