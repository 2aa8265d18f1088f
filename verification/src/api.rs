//! The DropRate API: what is asked, how a refusal is told, and the shapes of the
//! answers.
//!
//! Every call rides one endpoint, [`API_URL`], with a JSON object that names the
//! namespace and the action. The device token goes into these objects and nowhere
//! else.

use vstd::prelude::*;
use vstd::string::*;

use crate::number;
use crate::text;

verus! {

/// The one endpoint.
pub const API_URL: &'static str = "https://droprate.xyz/api/crate";

// ---------------------------------------------------------------------------
// Errors
// ---------------------------------------------------------------------------

/// Why a call gave no answer.
#[derive(Debug, PartialEq, Eq)]
pub enum ApiError {
    Network(String),
    /// The server answered, and it answered with a refusal. `status` lets callers
    /// distinguish "you don't own this" (403) from "signed out" (401).
    Server { status: u16, message: String },
    Shape(String),
}

/// What a call comes to.
pub type ApiResult<T> = Result<T, ApiError>;

impl ApiError {
    /// The error in words.
    pub open spec fn words(&self) -> Seq<char> {
        match self {
            ApiError::Network(detail) => "network error: "@ + detail@,
            ApiError::Server { message, .. } => message@,
            ApiError::Shape(detail) => "unexpected response: "@ + detail@,
        }
    }

    /// The server no longer recognises the device token.
    pub open spec fn revokes_pairing(&self) -> bool {
        self matches ApiError::Server { status, .. } && status == 401
    }

    /// The server could not be asked: it was not reached, or it is down. Any other error
    /// comes from a server that was reached.
    pub open spec fn means_out_of_reach(&self) -> bool {
        match self {
            ApiError::Network(_) => true,
            ApiError::Server { status, .. } => *status >= 500,
            ApiError::Shape(_) => false,
        }
    }

    /// The error in words meant for a person.
    pub fn describe(&self) -> (words: String)
        ensures
            words@ == self.words(),
    {
        match self {
            ApiError::Network(detail) => "network error: ".to_owned().concat(detail.as_str()),
            ApiError::Server { message, .. } => message.clone(),
            ApiError::Shape(detail) => "unexpected response: ".to_owned().concat(detail.as_str()),
        }
    }

    /// Whether the server no longer recognises the device token: the pairing was
    /// revoked from the website, or it expired.
    pub fn is_auth_failure(&self) -> (yes: bool)
        ensures
            yes == self.revokes_pairing(),
    {
        match self {
            ApiError::Server { status, .. } => *status == 401,
            _ => false,
        }
    }

    /// Whether the server could not be asked: it was not reached (offline, a timeout), or
    /// it is down.
    pub fn is_out_of_reach(&self) -> (yes: bool)
        ensures
            yes == self.means_out_of_reach(),
    {
        match self {
            ApiError::Network(_) => true,
            ApiError::Server { status, .. } => *status >= 500,
            ApiError::Shape(_) => false,
        }
    }
}

/// The HTTP statuses that mean success.
pub open spec fn is_success(status: u16) -> bool {
    200 <= status < 300
}

/// What a refusal is told as: the server's own wording where there is one.
pub open spec fn refusal_words(status: u16, wording: Option<Seq<char>>) -> Seq<char> {
    match wording {
        Some(words) => words,
        None => "server error ("@ + number::decimal_of(status as int) + ")"@,
    }
}

/// The error that an answer's status means, if any. `wording` is what the answer
/// itself gives as its error; it is written for people and shown as it is.
pub fn refusal(status: u16, wording: Option<String>) -> (error: Option<ApiError>)
    ensures
        is_success(status) ==> error is None,
        !is_success(status) ==> (error matches Some(ApiError::Server { status: told, message })
            && told == status && message@ == refusal_words(status, text::text_in(wording))),
{
    if 200 <= status && status < 300 {
        return None;
    }
    let message = match wording {
        Some(words) => words,
        None => {
            let code = number::decimal(status as i64);
            "server error (".to_owned().concat(code.as_str()).concat(")")
        },
    };
    Some(ApiError::Server { status, message })
}

// ---------------------------------------------------------------------------
// Requests
// ---------------------------------------------------------------------------

/// Declares `serde_json::Map`, the fields of a JSON object.
#[verifier::external_type_specification]
#[verifier::external_body]
#[verifier::reject_recursive_types(K)]
#[verifier::reject_recursive_types(V)]
pub struct ExJsonMap<K, V>(serde_json::Map<K, V>);

/// Declares `serde_json::Value`, one JSON value.
#[verifier::external_type_specification]
#[verifier::external_body]
pub struct ExJsonValue(serde_json::Value);

/// What a field of a request holds.
pub enum Field {
    Text(Seq<char>),
    Number(int),
}

/// What a JSON object holds under each of its names: a string as the characters
/// it is made of, an integer as its value.
pub uninterp spec fn fields_of(object: serde_json::Map<String, serde_json::Value>) -> Map<
    Seq<char>,
    Field,
>;

/// An object without fields.
pub open spec fn no_fields() -> Map<Seq<char>, Field> {
    Map::empty()
}

/// Calls `serde_json::Map::new`, which makes an object without fields.
#[verifier::external_body]
fn empty_object() -> (object: serde_json::Map<String, serde_json::Value>)
    ensures
        fields_of(object) == no_fields(),
{
    serde_json::Map::new()
}

/// Calls `serde_json::Map::insert` with a string, which then stands under the name
/// in place of what stood there; the other fields stay as they are.
#[verifier::external_body]
fn put_text(object: &mut serde_json::Map<String, serde_json::Value>, name: &str, value: &str)
    ensures
        fields_of(*final(object)) == fields_of(*old(object)).insert(name@, Field::Text(value@)),
{
    object.insert(name.to_string(), serde_json::Value::String(value.to_string()));
}

/// Calls `serde_json::Map::insert` with an integer, which then stands under the name
/// in place of what stood there; the other fields stay as they are.
#[verifier::external_body]
fn put_number(object: &mut serde_json::Map<String, serde_json::Value>, name: &str, value: i64)
    ensures
        fields_of(*final(object)) == fields_of(*old(object)).insert(
            name@,
            Field::Number(value as int),
        ),
{
    object.insert(name.to_string(), serde_json::Value::from(value));
}

/// One call of the API, with what it tells the server.
#[derive(Debug, PartialEq, Eq)]
pub enum Call<'a> {
    /// Begins a pairing.
    DeviceStart { name: &'a str, platform: &'a str },
    /// Asks whether a pairing was approved.
    DevicePoll { poll_token: &'a str },
    /// Asks who this device is paired with.
    DeviceMe { device_token: &'a str },
    /// Lists the library, with ownership checked against the chain.
    Library { device_token: &'a str },
    /// Asks for a download link. Ownership is checked again, so a 403 is
    /// authoritative: the copy was sold.
    Download { device_token: &'a str, product_id: i64, platform: &'a str },
    /// Asks for the credential that the game itself uses for achievements, cloud
    /// saves and leaderboards.
    Ticket { device_token: &'a str, product_id: i64 },
    /// The public storefront. Anyone can browse it, so it takes no token.
    Market,
    /// Signs this device out.
    Forget { device_token: &'a str },
}

impl<'a> Call<'a> {
    /// The action that names the call.
    pub open spec fn action(&self) -> Seq<char> {
        match self {
            Call::DeviceStart { .. } => "native-device-start"@,
            Call::DevicePoll { .. } => "native-device-poll"@,
            Call::DeviceMe { .. } => "native-device-me"@,
            Call::Library { .. } => "native-device-library"@,
            Call::Download { .. } => "native-device-download"@,
            Call::Ticket { .. } => "native-device-ticket"@,
            Call::Market => "native-market"@,
            Call::Forget { .. } => "native-device-forget"@,
        }
    }

    /// What the call tells the server besides its action.
    pub open spec fn arguments(&self) -> Map<Seq<char>, Field> {
        match self {
            Call::DeviceStart { name, platform } => map![
                "name"@ => Field::Text(name@),
                "platform"@ => Field::Text(platform@),
            ],
            Call::DevicePoll { poll_token } => map!["poll_token"@ => Field::Text(poll_token@)],
            Call::DeviceMe { device_token } => map!["device_token"@ => Field::Text(device_token@)],
            Call::Library { device_token } => map!["device_token"@ => Field::Text(device_token@)],
            Call::Download { device_token, product_id, platform } => map![
                "device_token"@ => Field::Text(device_token@),
                "product_id"@ => Field::Number(*product_id as int),
                "platform"@ => Field::Text(platform@),
            ],
            Call::Ticket { device_token, product_id } => map![
                "device_token"@ => Field::Text(device_token@),
                "product_id"@ => Field::Number(*product_id as int),
            ],
            Call::Market => no_fields(),
            Call::Forget { device_token } => map!["device_token"@ => Field::Text(device_token@)],
        }
    }

    /// Everything that the call's request holds.
    pub open spec fn request(&self) -> Map<Seq<char>, Field> {
        self.arguments().insert("ns"@, Field::Text("devmarket"@)).insert(
            "action"@,
            Field::Text(self.action()),
        )
    }

    /// The call is made in the name of a paired device.
    pub open spec fn needs_token(&self) -> bool {
        !(self is DeviceStart || self is DevicePoll || self is Market)
    }

    /// The body of the call's request. The namespace and the action are merged in
    /// here, so that no caller can forget them.
    pub fn body(&self) -> (object: serde_json::Map<String, serde_json::Value>)
        ensures
            fields_of(object) == self.request(),
    {
        let mut object = empty_object();
        let action: &'static str = match self {
            Call::DeviceStart { name, platform } => {
                put_text(&mut object, "name", name);
                put_text(&mut object, "platform", platform);
                "native-device-start"
            },
            Call::DevicePoll { poll_token } => {
                put_text(&mut object, "poll_token", poll_token);
                "native-device-poll"
            },
            Call::DeviceMe { device_token } => {
                put_text(&mut object, "device_token", device_token);
                "native-device-me"
            },
            Call::Library { device_token } => {
                put_text(&mut object, "device_token", device_token);
                "native-device-library"
            },
            Call::Download { device_token, product_id, platform } => {
                put_text(&mut object, "device_token", device_token);
                put_number(&mut object, "product_id", *product_id);
                put_text(&mut object, "platform", platform);
                "native-device-download"
            },
            Call::Ticket { device_token, product_id } => {
                put_text(&mut object, "device_token", device_token);
                put_number(&mut object, "product_id", *product_id);
                "native-device-ticket"
            },
            Call::Market => "native-market",
            Call::Forget { device_token } => {
                put_text(&mut object, "device_token", device_token);
                "native-device-forget"
            },
        };
        put_text(&mut object, "ns", "devmarket");
        put_text(&mut object, "action", action);
        object
    }
}

// ---------------------------------------------------------------------------
// Answers
// ---------------------------------------------------------------------------

/// A pairing that has begun.
#[derive(Debug, Clone, PartialEq, Eq)]
pub struct PairStart {
    pub code: String,
    pub poll_token: String,
    pub pair_url: String,
    pub expires_in: i64,
}

/// How a pairing stands.
#[derive(Debug, Clone, PartialEq, Eq)]
pub struct PairPoll {
    /// "pending", "paired", "collected", "expired" or "revoked".
    pub state: String,
    /// Present exactly once, on the first poll after approval.
    pub device_token: Option<String>,
    pub wallet: Option<String>,
    pub name: Option<String>,
}

/// Who this device is paired with.
#[derive(Debug, Clone, PartialEq, Eq)]
pub struct DeviceMe {
    pub wallet: String,
    pub name: Option<String>,
}

/// A game's own credential for one session.
#[derive(Debug, Clone, PartialEq, Eq)]
pub struct Ticket {
    pub ticket: String,
    pub wallet: String,
    pub product_id: i64,
    pub expires_at: i64,
}

/// The library of a wallet.
#[derive(Debug, Clone, PartialEq, Eq)]
pub struct LibraryResponse {
    pub wallet: String,
    pub games: Vec<LibraryGame>,
}

/// One game of a library.
#[derive(Debug, Clone, PartialEq, Eq)]
pub struct LibraryGame {
    pub product_id: i64,
    pub title: String,
    pub slug: Option<String>,
    pub tagline: Option<String>,
    pub image: Option<String>,
    pub runtime: Option<String>,
    pub copy_number: Option<i64>,
    pub asset_address: Option<String>,
    /// Checked against the chain by the server. False means that the copy was sold
    /// or transferred.
    pub owned: bool,
    pub build_version: i64,
    pub platforms: Vec<String>,
}

/// A link to download a build.
#[derive(Debug, Clone, PartialEq, Eq)]
pub struct DownloadTicket {
    pub url: String,
    pub expires_in: i64,
    pub bytes: Option<u64>,
    pub build_version: i64,
    /// When it is present it is verified, and a mismatch is not installed. When it is
    /// absent the build is installed, and the player is told so.
    pub sha256: Option<String>,
}

/// The public storefront.
#[derive(Debug, Clone, PartialEq, Eq)]
pub struct MarketResponse {
    pub games: Vec<StoreGame>,
}

/// One game of the storefront.
#[derive(Debug, Clone, PartialEq, Eq)]
pub struct StoreGame {
    pub id: i64,
    pub title: String,
    pub tagline: Option<String>,
    pub image: Option<String>,
    pub price_cents: Option<i64>,
    pub runtime: Option<String>,
    pub genres: Vec<String>,
    pub supply_model: Option<String>,
    /// `None` when supply is infinite.
    pub available: Option<i64>,
    pub minted_count: Option<i64>,
    pub sold_out: bool,
    pub dev: Option<StoreDev>,
}

/// Who made a game.
#[derive(Debug, Clone, PartialEq, Eq)]
pub struct StoreDev {
    pub studio: Option<String>,
    pub trusted: bool,
}

// ---------------------------------------------------------------------------
// Platforms
// ---------------------------------------------------------------------------

/// The API's name for an operating system.
pub open spec fn platform_of(os: Seq<char>) -> Seq<char> {
    if os == "windows"@ {
        "win"@
    } else if os == "macos"@ {
        "mac"@
    } else {
        "linux"@
    }
}

/// What a launcher on this operating system can run. Told to the server at pairing
/// time, and used to pick which build to ask for. `os` is the name that
/// `std::env::consts::OS` gives.
pub fn current_platform(os: &str) -> (platform: &'static str)
    ensures
        platform@ == platform_of(os@),
{
    if text::same_text(os, "windows") {
        "win"
    } else if text::same_text(os, "macos") {
        "mac"
    } else {
        "linux"
    }
}

// ---------------------------------------------------------------------------
// Laws
// ---------------------------------------------------------------------------

/// Every request names its namespace and its action, and no argument stands in the
/// place of either.
pub proof fn law_requests_name_their_action(call: Call)
    ensures
        call.request().contains_pair("ns"@, Field::Text("devmarket"@)),
        call.request().contains_pair("action"@, Field::Text(call.action())),
        !call.arguments().contains_key("ns"@),
        !call.arguments().contains_key("action"@),
{
    reveal_field_names();
}

/// The device token is sent exactly with the calls made in a paired device's name;
/// browsing the store and pairing send none.
pub proof fn law_the_token_goes_where_it_is_needed(call: Call)
    ensures
        call.request().contains_key("device_token"@) <==> call.needs_token(),
{
    reveal_field_names();
}

proof fn reveal_field_names()
    ensures
        "ns"@.len() == 2,
        "action"@.len() == 6,
        "name"@.len() == 4,
        "platform"@.len() == 8,
        "poll_token"@.len() == 10,
        "device_token"@.len() == 12,
        "product_id"@.len() == 10,
{
    reveal_strlit("ns");
    reveal_strlit("action");
    reveal_strlit("name");
    reveal_strlit("platform");
    reveal_strlit("poll_token");
    reveal_strlit("device_token");
    reveal_strlit("product_id");
}

/// Each call sends exactly these fields, whatever their values.
pub proof fn law_each_request_in_full(call: Call)
    ensures
        call matches Call::DeviceStart { name, platform } ==> call.request()
            == map![
                "ns"@ => Field::Text("devmarket"@),
                "action"@ => Field::Text("native-device-start"@),
                "name"@ => Field::Text(name@),
                "platform"@ => Field::Text(platform@),
            ],
        call matches Call::DevicePoll { poll_token } ==> call.request()
            == map![
                "ns"@ => Field::Text("devmarket"@),
                "action"@ => Field::Text("native-device-poll"@),
                "poll_token"@ => Field::Text(poll_token@),
            ],
        call matches Call::DeviceMe { device_token } ==> call.request()
            == map![
                "ns"@ => Field::Text("devmarket"@),
                "action"@ => Field::Text("native-device-me"@),
                "device_token"@ => Field::Text(device_token@),
            ],
        call matches Call::Library { device_token } ==> call.request()
            == map![
                "ns"@ => Field::Text("devmarket"@),
                "action"@ => Field::Text("native-device-library"@),
                "device_token"@ => Field::Text(device_token@),
            ],
        call matches Call::Download { device_token, product_id, platform } ==> call.request()
            == map![
                "ns"@ => Field::Text("devmarket"@),
                "action"@ => Field::Text("native-device-download"@),
                "device_token"@ => Field::Text(device_token@),
                "product_id"@ => Field::Number(product_id as int),
                "platform"@ => Field::Text(platform@),
            ],
        call matches Call::Ticket { device_token, product_id } ==> call.request()
            == map![
                "ns"@ => Field::Text("devmarket"@),
                "action"@ => Field::Text("native-device-ticket"@),
                "device_token"@ => Field::Text(device_token@),
                "product_id"@ => Field::Number(product_id as int),
            ],
        call is Market ==> call.request() == map![
            "ns"@ => Field::Text("devmarket"@),
            "action"@ => Field::Text("native-market"@),
        ],
        call matches Call::Forget { device_token } ==> call.request()
            == map![
                "ns"@ => Field::Text("devmarket"@),
                "action"@ => Field::Text("native-device-forget"@),
                "device_token"@ => Field::Text(device_token@),
            ],
{
    reveal_field_names();
    reveal_strlit("poll_token");
    reveal_strlit("product_id");
}

/// An error is told with its own detail: a refusal in the server's words alone, the others
/// behind what kind they are.
pub proof fn law_errors_are_told_with_their_detail(detail: String, status: u16)
    ensures
        (ApiError::Network(detail)).words() == "network error: "@ + detail@,
        (ApiError::Shape(detail)).words() == "unexpected response: "@ + detail@,
        (ApiError::Server { status, message: detail }).words() == detail@,
{
}

/// Only a refusal with 401 ends a pairing. A server cannot be asked where the network fails
/// or its status says that it is down; any refusal below that, and any answer of another
/// shape, comes from one that was reached.
pub proof fn law_what_an_error_means(detail: String, status: u16)
    ensures
        (ApiError::Server { status, message: detail }).revokes_pairing() <==> status == 401,
        !(ApiError::Network(detail)).revokes_pairing(),
        !(ApiError::Shape(detail)).revokes_pairing(),
        (ApiError::Server { status, message: detail }).means_out_of_reach() <==> status >= 500,
        (ApiError::Network(detail)).means_out_of_reach(),
        !(ApiError::Shape(detail)).means_out_of_reach(),
{
}

/// A refusal is told in the server's words where it has any, and otherwise by its status in
/// decimal.
pub proof fn law_a_refusal_has_words(status: u16, words: Seq<char>)
    ensures
        refusal_words(status, Some(words)) == words,
        refusal_words(status, None) == "server error ("@ + number::decimal_of(status as int)
            + ")"@,
        is_success(status) <==> 200 <= status <= 299,
{
}

/// Windows and macOS have names of their own, and everything else goes by Linux.
pub proof fn law_platforms_have_names(os: Seq<char>)
    ensures
        platform_of("windows"@) == "win"@,
        platform_of("macos"@) == "mac"@,
        os != "windows"@ && os != "macos"@ ==> platform_of(os) == "linux"@,
{
    reveal_strlit("windows");
    reveal_strlit("macos");
    assert("windows"@.len() == 7 && "macos"@.len() == 5);
}

} // verus!
