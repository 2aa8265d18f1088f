//! The pages and folders that the launcher opens outside itself.
//!
//! No function here takes a URL from the player's side of the launcher: each is
//! built from values that the launcher controls, and what is opened lies on
//! droprate.xyz.

use vstd::prelude::*;
use vstd::string::*;

use crate::number;
use crate::text;

verus! {

/// A program to start, with its arguments.
#[derive(Debug, PartialEq, Eq)]
pub struct OpenCommand {
    pub program: String,
    pub args: Vec<String>,
}

/// A page of droprate.xyz.
pub open spec fn is_droprate_link(url: Seq<char>) -> bool {
    "https://droprate.xyz/"@.is_prefix_of(url)
}

/// The program that opens pages on an operating system.
pub open spec fn page_program(os: Seq<char>) -> Seq<char> {
    if os == "windows"@ {
        "rundll32"@
    } else if os == "macos"@ {
        "open"@
    } else {
        "xdg-open"@
    }
}

/// The arguments that make it open a page.
pub open spec fn page_args(os: Seq<char>, url: Seq<char>) -> Seq<Seq<char>> {
    if os == "windows"@ {
        seq!["url.dll,FileProtocolHandler"@, url]
    } else {
        seq![url]
    }
}

/// `opened` is the command that opens a page of droprate.xyz, or the refusal to open
/// any other.
pub open spec fn opens(
    opened: Result<OpenCommand, String>,
    os: Seq<char>,
    url: Seq<char>,
) -> bool {
    match opened {
        Ok(command) => {
            &&& is_droprate_link(url)
            &&& command.program@ == page_program(os)
            &&& text::texts(command.args@) == page_args(os, url)
        },
        Err(message) => {
            &&& !is_droprate_link(url)
            &&& message@ == "Refusing to open a link outside droprate.xyz."@
        },
    }
}

/// The command that opens a page of droprate.xyz in the system's browser.
///
/// On Windows the page goes to the protocol handler with no shell in between, so
/// that `?` and `&` survive intact.
pub fn open_external(os: &str, url: &str) -> (opened: Result<OpenCommand, String>)
    ensures
        opens(opened, os@, url@),
{
    if !text::begins_with(url, "https://droprate.xyz/") {
        return Err("Refusing to open a link outside droprate.xyz.".to_owned());
    }
    let mut args: Vec<String> = Vec::new();
    let program = if text::same_text(os, "windows") {
        args.push("url.dll,FileProtocolHandler".to_owned());
        "rundll32"
    } else if text::same_text(os, "macos") {
        "open"
    } else {
        "xdg-open"
    };
    args.push(url.to_owned());
    assert(text::texts(args@) =~= page_args(os@, url@));
    Ok(OpenCommand { program: program.to_owned(), args })
}

/// The page of one game in the store. The store is the site's homepage; the query
/// scrolls to and opens the title.
pub open spec fn store_page(product_id: i64) -> Seq<char> {
    "https://droprate.xyz/?game="@ + number::decimal_of(product_id as int)
}

/// The command that opens one game's page, so that the person can buy it there.
///
/// It takes a product id and no URL: an integer cannot be turned into a link to
/// somewhere else.
pub fn open_store_page(os: &str, product_id: i64) -> (opened: Result<OpenCommand, String>)
    ensures
        product_id <= 0 ==> (opened matches Err(message) && message@
            == "That game id isn't valid."@),
        product_id > 0 ==> opened is Ok && opens(opened, os@, store_page(product_id)),
{
    if product_id <= 0 {
        return Err("That game id isn't valid.".to_owned());
    }
    let id = number::decimal(product_id);
    let url = "https://droprate.xyz/?game=".to_owned().concat(id.as_str());
    proof {
        law_store_pages_are_on_droprate(product_id);
    }
    open_external(os, url.as_str())
}

/// The command that opens the developer portal.
pub fn open_dev_portal(os: &str) -> (opened: Result<OpenCommand, String>)
    ensures
        opened is Ok,
        opens(opened, os@, "https://droprate.xyz/devportal.html"@),
{
    proof {
        law_the_portal_is_on_droprate();
    }
    open_external(os, "https://droprate.xyz/devportal.html")
}

/// The program that opens folders on an operating system.
pub open spec fn folder_program(os: Seq<char>) -> Seq<char> {
    if os == "windows"@ {
        "explorer"@
    } else if os == "macos"@ {
        "open"@
    } else {
        "xdg-open"@
    }
}

/// The program that opens a game's folder, which it takes as its one argument. `present`
/// tells whether the folder exists.
pub fn open_install_folder(os: &str, present: bool) -> (program: Result<&'static str, String>)
    ensures
        present ==> (program matches Ok(program) && program@ == folder_program(os@)),
        !present ==> (program matches Err(message) && message@ == "That folder no longer exists."@),
{
    if !present {
        Err("That folder no longer exists.".to_owned())
    } else if text::same_text(os, "windows") {
        Ok("explorer")
    } else if text::same_text(os, "macos") {
        Ok("open")
    } else {
        Ok("xdg-open")
    }
}

// ---------------------------------------------------------------------------
// Laws
// ---------------------------------------------------------------------------

/// The page of any game lies on droprate.xyz.
pub proof fn law_store_pages_are_on_droprate(product_id: i64)
    ensures
        is_droprate_link(store_page(product_id)),
{
    reveal_strlit("https://droprate.xyz/");
    reveal_strlit("https://droprate.xyz/?game=");
    let page = store_page(product_id);
    assert(page.subrange(0, "https://droprate.xyz/"@.len() as int) =~= "https://droprate.xyz/"@);
}

/// The developer portal lies on droprate.xyz.
pub proof fn law_the_portal_is_on_droprate()
    ensures
        is_droprate_link("https://droprate.xyz/devportal.html"@),
{
    reveal_strlit("https://droprate.xyz/");
    reveal_strlit("https://droprate.xyz/devportal.html");
    let page = "https://droprate.xyz/devportal.html"@;
    assert(page.subrange(0, "https://droprate.xyz/"@.len() as int) =~= "https://droprate.xyz/"@);
}

/// A page is on droprate.xyz exactly where its address is the site's and whatever follows.
pub proof fn law_a_page_of_the_site_begins_with_it(url: Seq<char>, rest: Seq<char>)
    ensures
        is_droprate_link("https://droprate.xyz/"@ + rest),
        is_droprate_link(url) ==> url == "https://droprate.xyz/"@ + url.skip(
            "https://droprate.xyz/"@.len() as int,
        ),
{
    let site = "https://droprate.xyz/"@;
    assert((site + rest).subrange(0, site.len() as int) =~= site);
    if is_droprate_link(url) {
        assert(url =~= site + url.skip(site.len() as int));
    }
}

/// Where a page is opened at all, it is the page that was asked for, handed over unchanged
/// as the last argument; only on Windows does another one come before it. Any other page is
/// refused.
pub proof fn law_the_page_itself_is_opened(
    opened: Result<OpenCommand, String>,
    os: Seq<char>,
    url: Seq<char>,
)
    requires
        opens(opened, os, url),
    ensures
        opened is Ok <==> is_droprate_link(url),
        opened matches Ok(command) ==> {
            &&& command.args@.len() == (if os == "windows"@ {
                2int
            } else {
                1int
            })
            &&& command.args@[command.args@.len() - 1]@ == url
            &&& os == "windows"@ ==> command.args@[0]@ == "url.dll,FileProtocolHandler"@
                && command.program@ == "rundll32"@
            &&& os == "macos"@ ==> command.program@ == "open"@
            &&& os != "windows"@ && os != "macos"@ ==> command.program@ == "xdg-open"@
        },
        opened matches Err(message) ==> message@
            == "Refusing to open a link outside droprate.xyz."@,
{
    reveal_strlit("windows");
    reveal_strlit("macos");
    assert("windows"@.len() == 7 && "macos"@.len() == 5);
    if opened is Ok {
        let args = opened->Ok_0.args@;
        assert(text::texts(args).len() == args.len());
        assert(text::texts(args)[args.len() - 1] == args[args.len() - 1]@);
        assert(text::texts(args)[0] == args[0]@);
    }
}

/// The page of a game is the site's address, the query, and the game's id in decimal, so
/// different games have different pages.
pub proof fn law_each_game_has_its_page(a: i64, b: i64)
    ensures
        store_page(a) == "https://droprate.xyz/?game="@ + number::decimal_of(a as int),
        store_page(a) == store_page(b) ==> a == b,
{
    let lead = "https://droprate.xyz/?game="@;
    if store_page(a) == store_page(b) {
        assert(store_page(a).skip(lead.len() as int) =~= number::decimal_of(a as int));
        assert(store_page(b).skip(lead.len() as int) =~= number::decimal_of(b as int));
        number::law_decimal_tells_numbers_apart(a as int, b as int);
    }
}

/// Each operating system opens folders with its own program.
pub proof fn law_folders_are_opened_by_the_system(os: Seq<char>)
    ensures
        folder_program("windows"@) == "explorer"@,
        folder_program("macos"@) == "open"@,
        os != "windows"@ && os != "macos"@ ==> folder_program(os) == "xdg-open"@,
{
    reveal_strlit("windows");
    reveal_strlit("macos");
    assert("windows"@.len() == 7 && "macos"@.len() == 5);
}

} // verus!
