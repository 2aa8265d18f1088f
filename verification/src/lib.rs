//! The core of the DropRate launcher: pair with a wallet, install the games you
//! own, play them.
//!
//! Everything that is decided stands here and is proved against its contract; the
//! files, the network and the window are the application's. The two decisions that
//! must not be wrong are whether a game may launch ([`gate`]) and where an entry of
//! an archive may be written ([`archive`]). Around them stand the launcher's
//! [`state`], what is asked of the server ([`api`]), the [`library`] and the
//! [`store`] as the player sees them, [`pairing`], [`install`] and [`play`], and the
//! pages that are opened outside ([`links`]).
//!
//! Text is treated as a sequence of characters ([`text`], [`number`]), and a path as a
//! directory with names that lead on from there ([`paths`]).

pub mod api;
pub mod archive;
pub mod executable;
pub mod gate;
pub mod install;
pub mod library;
pub mod links;
pub mod number;
pub mod pairing;
pub mod paths;
pub mod play;
pub mod state;
pub mod store;
pub mod text;
