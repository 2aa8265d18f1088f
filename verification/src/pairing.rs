//! Pairing with a wallet.
//!
//! Pairing is approved in the browser, where the wallet lives. The launcher gets a
//! device token for it, which goes into its state and is never shown.

use vstd::prelude::*;
use vstd::string::*;

use crate::api::{PairPoll, PairStart};
use crate::links;
use crate::links::{open_external, OpenCommand};
use crate::state::LauncherState;
use crate::text;

verus! {

/// A pairing in progress. It is not kept across runs: an interrupted pairing is
/// restarted, because the code on screen is gone.
#[derive(Debug)]
pub struct Pairing {
    pub poll_token: Option<String>,
    /// Kept here so that opening the pairing page takes no argument: it can only
    /// ever be the page that the server issued.
    pub pair_url: Option<String>,
}

impl Default for Pairing {
    fn default() -> (pairing: Self)
        ensures
            pairing.poll_token is None,
            pairing.pair_url is None,
    {
        Pairing { poll_token: None, pair_url: None }
    }
}

/// What the player is shown when a pairing begins.
#[derive(Debug, PartialEq, Eq)]
pub struct PairStarted {
    pub code: String,
    pub expires_in: i64,
}

/// What the player is shown of a pairing in progress.
#[derive(Debug, PartialEq, Eq)]
pub struct PairPolled {
    pub state: String,
    pub wallet: Option<String>,
}

impl Pairing {
    /// Begins a pairing. What is handed on holds the code and no more: neither the
    /// poll token nor the page's address.
    pub fn begin(&mut self, started: PairStart) -> (shown: PairStarted)
        ensures
            final(self).poll_token == Some(started.poll_token),
            final(self).pair_url == Some(started.pair_url),
            shown.code == started.code,
            shown.expires_in == started.expires_in,
    {
        self.poll_token = Some(started.poll_token);
        self.pair_url = Some(started.pair_url);
        PairStarted { code: started.code, expires_in: started.expires_in }
    }

    /// Stops polling, because the pairing is done or was cancelled.
    pub fn stop_polling(&mut self)
        ensures
            final(self).poll_token is None,
            final(self).pair_url == old(self).pair_url,
    {
        self.poll_token = None;
    }

    /// The command that opens the pairing page that the server issued.
    pub fn open_pair_page(&self, os: &str) -> (opened: Result<OpenCommand, String>)
        ensures
            match self.pair_url {
                Some(url) => links::opens(opened, os@, url@),
                None => opened matches Err(message) && message@ == "No pairing in progress."@,
            },
    {
        match &self.pair_url {
            Some(url) => open_external(os, url.as_str()),
            None => Err("No pairing in progress.".to_owned()),
        }
    }
}

/// What is shown where nothing is being paired.
pub fn idle() -> (shown: PairPolled)
    ensures
        shown.state@ == "idle"@,
        shown.wallet is None,
{
    PairPolled { state: "idle".to_owned(), wallet: None }
}

impl PairPoll {
    /// The pairing was approved and this answer carries the token.
    pub open spec fn grants_token(&self) -> bool {
        self.state@ == "paired"@ && self.device_token is Some
    }

    /// Whether the pairing was approved and this answer carries the token.
    pub fn is_grant(&self) -> (yes: bool)
        ensures
            yes == self.grants_token(),
    {
        text::same_text(self.state.as_str(), "paired") && self.device_token.is_some()
    }

    /// `shown` is what the player is shown of the answer.
    pub open spec fn shows_as(&self, shown: PairPolled) -> bool {
        shown.state == self.state && shown.wallet == self.wallet
    }

    /// What is shown of the answer. The token is not part of it.
    pub fn shown(self) -> (shown: PairPolled)
        ensures
            self.shows_as(shown),
    {
        PairPolled { state: self.state, wallet: self.wallet }
    }
}

impl LauncherState {
    /// This is the state `before` after an answer on a pairing in progress.
    pub open spec fn adopts(&self, before: Self, polled: PairPoll) -> bool {
        &&& self.games@ == before.games@
        &&& self.strays@ == before.strays@
        &&& polled.grants_token() ==> {
            &&& self.device_token == polled.device_token
            &&& self.wallet == polled.wallet
            &&& self.device_name == polled.name
        }
        &&& !polled.grants_token() ==> self.same_sign_in(before)
    }

    /// Signs this computer in, if the answer grants it. The installed games stay as
    /// they are.
    pub fn adopt_pairing(&mut self, polled: &PairPoll)
        ensures
            final(self).adopts(*old(self), *polled),
    {
        if polled.is_grant() {
            self.device_token = text::copy_of(&polled.device_token);
            self.wallet = text::copy_of(&polled.wallet);
            self.device_name = text::copy_of(&polled.name);
        }
    }
}

impl LauncherState {
    /// Takes in an answer on the pairing in progress, and gives what is shown of it. A
    /// grant signs this computer in and ends the polling; any other answer changes
    /// nothing.
    pub fn absorb_poll(&mut self, pairing: &mut Pairing, polled: PairPoll) -> (shown: PairPolled)
        ensures
            final(self).adopts(*old(self), polled),
            polled.shows_as(shown),
            final(pairing).poll_token == (if polled.grants_token() {
                None
            } else {
                old(pairing).poll_token
            }),
            final(pairing).pair_url == old(pairing).pair_url,
    {
        self.adopt_pairing(&polled);
        if polled.is_grant() {
            pairing.stop_polling();
        }
        polled.shown()
    }
}

/// How a computer is called: by its first name that is known, unless that is blank.
pub open spec fn called(computer_name: Option<Seq<char>>, host_name: Option<Seq<char>>) -> Seq<char> {
    let known = if computer_name is Some {
        computer_name
    } else {
        host_name
    };
    if known is Some && text::trimmed(known->0).len() > 0 {
        known->0
    } else {
        "My PC"@
    }
}

/// The name that this computer pairs under, from the two names that its
/// environment may give it.
pub fn device_name(computer_name: Option<String>, host_name: Option<String>) -> (name: String)
    ensures
        name@ == called(text::text_in(computer_name), text::text_in(host_name)),
{
    let known = match computer_name {
        Some(name) => Some(name),
        None => host_name,
    };
    match known {
        Some(name) => {
            if text::trim(name.as_str()).as_str().is_empty() {
                "My PC".to_owned()
            } else {
                name
            }
        },
        None => "My PC".to_owned(),
    }
}

// ---------------------------------------------------------------------------
// Laws
// ---------------------------------------------------------------------------

/// What is shown of a pairing in progress does not depend on the device token: it
/// cannot be read off what is shown, whether one was granted or not.
pub proof fn law_polling_does_not_tell_the_token(shown: PairPolled, polled: PairPoll, other: PairPoll)
    requires
        polled.shows_as(shown),
        other.state == polled.state,
        other.wallet == polled.wallet,
    ensures
        other.shows_as(shown),
{
}

/// Only an approved pairing that carries a token signs this computer in, and then it
/// is paired.
pub proof fn law_only_a_grant_signs_in(before: LauncherState, after: LauncherState, polled: PairPoll)
    requires
        after.adopts(before, polled),
    ensures
        polled.grants_token() ==> after.device_token is Some,
        !polled.grants_token() ==> after.same_sign_in(before),
        after.games@ == before.games@,
{
}

/// The token is taken exactly from an answer that says "paired" and carries one, and with
/// it the wallet and the name that the answer gives; the installed games stay.
pub proof fn law_a_grant_is_taken_over_whole(
    before: LauncherState,
    after: LauncherState,
    polled: PairPoll,
)
    requires
        after.adopts(before, polled),
    ensures
        ({
            let granted = polled.state@ == "paired"@ && polled.device_token is Some;
            &&& polled.grants_token() <==> granted
            &&& granted ==> after.device_token == polled.device_token && after.wallet
                == polled.wallet && after.device_name == polled.name
            &&& !granted ==> after.device_token == before.device_token && after.wallet
                == before.wallet && after.device_name == before.device_name
            &&& after.games@ == before.games@
            &&& after.strays@ == before.strays@
        }),
{
}

/// What is shown of an answer is its state and its wallet.
pub proof fn law_the_state_and_the_wallet_are_shown(shown: PairPolled, polled: PairPoll)
    requires
        polled.shows_as(shown),
    ensures
        shown.state == polled.state,
        shown.wallet == polled.wallet,
{
}

/// A computer goes by its computer name, and by its host name only where it has none; a
/// name of nothing but white space is none at all, and does not bring up the other.
pub proof fn law_a_computer_goes_by_its_first_name(
    computer_name: Option<Seq<char>>,
    host_name: Option<Seq<char>>,
    other: Option<Seq<char>>,
)
    ensures
        computer_name is Some ==> called(computer_name, host_name) == called(computer_name, other),
        called(None, host_name) == called(host_name, other) || host_name is None,
        called(None, None) == "My PC"@,
        computer_name matches Some(name) ==> called(computer_name, host_name) == (if exists|i: int|
            0 <= i < name.len() && !text::is_white(#[trigger] name[i]) {
            name
        } else {
            "My PC"@
        }),
{
    if computer_name is Some {
        let name = computer_name->0;
        let (from, to) = text::law_trimming_takes_off_the_ends(name);
        if exists|i: int| 0 <= i < name.len() && !text::is_white(#[trigger] name[i]) {
            let i = choose|i: int| 0 <= i < name.len() && !text::is_white(#[trigger] name[i]);
            assert(from <= i < to);
        } else if from < to {
            assert(!text::is_white(name[from]));
        }
    }
}

} // verus!
