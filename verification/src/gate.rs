//! The resale gate: may this game launch?

use vstd::prelude::*;

verus! {

/// How long a game may launch on a previously good ownership check when the
/// server can't be reached. Covers a weekend offline; does not cover a month.
pub const OWNERSHIP_GRACE_SECS: i64 = 72 * 60 * 60;

/// What the resale gate decides.
#[derive(Debug, PartialEq, Eq)]
pub enum LaunchDecision {
    /// Ownership is good: either confirmed just now, or confirmed recently enough
    /// that a temporary network failure shouldn't strand the owner.
    Allow,
    /// The chain says this wallet does not own a copy. Never overridable.
    Blocked(&'static str),
    /// We don't know, and the last time we did know was too long ago.
    NeedsVerification(&'static str),
}

impl Clone for LaunchDecision {
    fn clone(&self) -> (decision: Self)
        ensures
            decision == *self,
    {
        match self {
            LaunchDecision::Allow => LaunchDecision::Allow,
            LaunchDecision::Blocked(message) => LaunchDecision::Blocked(*message),
            LaunchDecision::NeedsVerification(message) => LaunchDecision::NeedsVerification(
                *message,
            ),
        }
    }
}

/// A [`LaunchDecision`] with its message as a sequence of characters.
pub enum Ruling {
    Allow,
    Blocked(Seq<char>),
    NeedsVerification(Seq<char>),
}

impl View for LaunchDecision {
    type V = Ruling;

    open spec fn view(&self) -> Ruling {
        match self {
            LaunchDecision::Allow => Ruling::Allow,
            LaunchDecision::Blocked(message) => Ruling::Blocked(message@),
            LaunchDecision::NeedsVerification(message) => Ruling::NeedsVerification(message@),
        }
    }
}

/// What a player is told of a copy that was sold.
pub open spec fn sold_message() -> Seq<char> {
    "This copy is no longer owned by the paired wallet. It can't be launched."@
}

/// What a player is told where no check of ownership counts.
pub open spec fn unverified_message() -> Seq<char> {
    "Connect to the internet once to confirm you own this game."@
}

/// What a player is told when the last check is too old.
pub open spec fn stale_message() -> Seq<char> {
    "It's been a while since we could check this game. Reconnect to keep playing."@
}

/// A check of ownership that counts: it was made, and it does not lie in the
/// future, where a clock that was moved back puts it.
pub open spec fn check_counts(last_verified_at: int, now: int) -> bool {
    0 < last_verified_at <= now
}

/// What the resale gate decides on the server's answer (`None` where it could not be
/// asked), the last confirmed check, the time, and the length of the grace.
pub open spec fn ruling(
    owned_now: Option<bool>,
    last_verified_at: int,
    now: int,
    grace_secs: int,
) -> Ruling {
    match owned_now {
        Some(true) => Ruling::Allow,
        Some(false) => Ruling::Blocked(sold_message()),
        None => if !check_counts(last_verified_at, now) {
            Ruling::NeedsVerification(unverified_message())
        } else if now - last_verified_at <= grace_secs {
            Ruling::Allow
        } else {
            Ruling::NeedsVerification(stale_message())
        },
    }
}

/// Decides whether a game may launch.
///
/// `owned_now` is the server's answer, which is checked against the chain:
/// `Some(true)` is owned right now, `Some(false)` is not owned (sold, transferred,
/// refunded), `None` is that we could not ask (offline, timeout, server down).
///
/// The asymmetry is the whole point. A definite "no" blocks immediately and no
/// amount of grace saves it. Grace exists only for the case where we genuinely
/// don't know, so that a flaky connection doesn't take someone's game away.
pub fn launch_decision(
    owned_now: Option<bool>,
    last_verified_at: i64,
    now: i64,
    grace_secs: i64,
) -> (decision: LaunchDecision)
    ensures
        decision@ == ruling(owned_now, last_verified_at as int, now as int, grace_secs as int),
{
    match owned_now {
        Some(true) => LaunchDecision::Allow,
        Some(false) => LaunchDecision::Blocked(
            "This copy is no longer owned by the paired wallet. It can't be launched.",
        ),
        None => {
            if last_verified_at <= 0 || last_verified_at > now {
                LaunchDecision::NeedsVerification(
                    "Connect to the internet once to confirm you own this game.",
                )
            } else if now - last_verified_at <= grace_secs {
                LaunchDecision::Allow
            } else {
                LaunchDecision::NeedsVerification(
                    "It's been a while since we could check this game. Reconnect to keep playing.",
                )
            }
        },
    }
}

// ---------------------------------------------------------------------------
// Laws
// ---------------------------------------------------------------------------

/// A definite "no" blocks, whatever was verified before, at any time, with any
/// grace.
pub proof fn law_a_definite_no_always_blocks(last_verified_at: int, now: int, grace_secs: int)
    ensures
        ruling(Some(false), last_verified_at, now, grace_secs) == Ruling::Blocked(sold_message()),
{
}

/// A live "yes" launches and depends on no local state.
pub proof fn law_a_live_yes_always_launches(last_verified_at: int, now: int, grace_secs: int)
    ensures
        ruling(Some(true), last_verified_at, now, grace_secs) == Ruling::Allow,
{
}

/// With no answer, a game launches exactly from the moment of its last check until
/// the grace is over, both ends included.
pub proof fn law_grace_is_a_window(last_verified_at: int, now: int, grace_secs: int)
    ensures
        ruling(None, last_verified_at, now, grace_secs) == Ruling::Allow <==> 0 < last_verified_at
            <= now <= last_verified_at + grace_secs,
{
}

/// Grace that has run out does not come back as time goes on.
pub proof fn law_grace_runs_out_for_good(
    last_verified_at: int,
    now: int,
    later: int,
    grace_secs: int,
)
    requires
        last_verified_at <= now <= later,
        ruling(None, last_verified_at, now, grace_secs) != Ruling::Allow,
    ensures
        ruling(None, last_verified_at, later, grace_secs) != Ruling::Allow,
{
}

/// A game that was never verified does not launch while the server cannot be
/// asked, at any time, with any grace.
pub proof fn law_unverified_games_need_a_check(last_verified_at: int, now: int, grace_secs: int)
    requires
        last_verified_at <= 0,
    ensures
        ruling(None, last_verified_at, now, grace_secs) == Ruling::NeedsVerification(
            unverified_message(),
        ),
{
}

/// A clock moved back behind the last check buys no grace.
pub proof fn law_a_clock_moved_back_buys_nothing(last_verified_at: int, now: int, grace_secs: int)
    requires
        now < last_verified_at,
    ensures
        ruling(None, last_verified_at, now, grace_secs) == Ruling::NeedsVerification(
            unverified_message(),
        ),
{
}

/// Where no check counts, the player is asked to connect once; where the last one is older
/// than the grace, to reconnect. A definite "no" says that the copy is not owned any more.
pub proof fn law_each_ruling_has_its_words(last_verified_at: int, now: int, grace_secs: int)
    ensures
        ruling(Some(false), last_verified_at, now, grace_secs) == Ruling::Blocked(
            "This copy is no longer owned by the paired wallet. It can't be launched."@,
        ),
        last_verified_at <= 0 || now < last_verified_at ==> ruling(
            None,
            last_verified_at,
            now,
            grace_secs,
        ) == Ruling::NeedsVerification(
            "Connect to the internet once to confirm you own this game."@,
        ),
        0 < last_verified_at <= now && now > last_verified_at + grace_secs ==> ruling(
            None,
            last_verified_at,
            now,
            grace_secs,
        ) == Ruling::NeedsVerification(
            "It's been a while since we could check this game. Reconnect to keep playing."@,
        ),
        OWNERSHIP_GRACE_SECS == 72 * 3600,
{
}

/// Only the server's "no" blocks: without an answer a game is let through or asked about.
pub proof fn law_only_a_definite_no_blocks(
    owned_now: Option<bool>,
    last_verified_at: int,
    now: int,
    grace_secs: int,
)
    ensures
        ruling(owned_now, last_verified_at, now, grace_secs) is Blocked <==> owned_now == Some(
            false,
        ),
{
}

/// A decision reads as the ruling of its kind, with its own message.
pub proof fn law_a_decision_reads_as_its_ruling(message: &'static str)
    ensures
        (LaunchDecision::Allow)@ == Ruling::Allow,
        (LaunchDecision::Blocked(message))@ == Ruling::Blocked(message@),
        (LaunchDecision::NeedsVerification(message))@ == Ruling::NeedsVerification(message@),
{
}

} // verus!
