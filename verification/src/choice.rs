//! Which portal is used, and whether the server process runs.

use vstd::prelude::*;

use crate::text::{contains, law_texts_are_found_in_their_surroundings, occurs_in};

verus! {

/// What `str::to_lowercase` makes of a text.
pub uninterp spec fn lowercase(s: Seq<char>) -> Seq<char>;

/// A text of ASCII characters only.
pub open spec fn is_ascii_text(s: Seq<char>) -> bool {
    forall|i: int| 0 <= i < s.len() ==> (#[trigger] s[i]) as int <= 0x7f
}

/// `s` with `a` to `z` in place of `A` to `Z`.
pub open spec fn ascii_lowercase(s: Seq<char>) -> Seq<char> {
    s.map_values(
        |c: char|
            if 'A' <= c <= 'Z' {
                (c as int + 32) as char
            } else {
                c
            },
    )
}

/// `str::to_lowercase` replaces each character by its lower case as Unicode defines it, which
/// depends on the text alone. Of a text in ASCII only the letters `A` to `Z` change; of others the
/// result has no more than its name here.
#[verifier::external_body]
fn to_lowercase(s: &str) -> (r: String)
    ensures
        r@ == lowercase(s@),
        is_ascii_text(s@) ==> r@ == ascii_lowercase(s@),
{
    s.to_lowercase()
}

/// What `String::from_utf8_lossy` makes of some bytes.
pub uninterp spec fn utf8_lossy(bytes: Seq<u8>) -> Seq<char>;

/// `String::from_utf8_lossy` reads bytes as UTF-8. Bytes that are UTF-8 give the text they encode;
/// in others, what cannot be read is replaced, and the result has no more than its name here.
#[verifier::external_body]
fn from_utf8_lossy(bytes: &[u8]) -> (r: String)
    ensures
        r@ == utf8_lossy(bytes@),
        vstd::utf8::valid_utf8(bytes@) ==> r@ == vstd::utf8::decode_utf8(bytes@),
{
    String::from_utf8_lossy(bytes).into_owned()
}

/// What was found out so far, each once and for all.
#[derive(Clone, Copy, Debug)]
pub struct PortalChoice {
    /// Whether the server process runs.
    pub server_running: Option<bool>,
    /// Whether the remote desktop portal is used.
    pub use_remote_desktop: Option<bool>,
}

/// The start of the command that lists the processes.
pub const LIST_PROCESSES: &'static str = "ps aux | grep ";

/// What marks the server process.
pub const SERVER_MARK: &'static str = " --server";

/// Whether a list of processes, as text, names the server process of an application.
pub open spec fn names_server(listing: Seq<char>, app: Seq<char>) -> bool {
    occurs_in(app + SERVER_MARK@, listing)
}

/// Searches a list of processes for the server process of an application, whose name is in lower
/// case.
pub fn lists_server(listing: &str, app: &str) -> (r: bool)
    ensures
        r == names_server(listing@, app@),
{
    let mut mark = app.to_owned();
    mark.append(SERVER_MARK);
    contains(listing, mark.as_str())
}

/// The shell command that lists the processes of an application, whose name is in lower case.
pub fn list_command(app: &str) -> (r: String)
    ensures
        r@ == LIST_PROCESSES@ + app@,
        r@ == "ps aux | grep "@ + app@,
{
    let mut r = LIST_PROCESSES.to_owned();
    r.append(app);
    r
}

/// The shell command that lists the processes of an application.
pub fn process_list_command(app_name: &str) -> (r: String)
    ensures
        r@ == LIST_PROCESSES@ + lowercase(app_name@),
        is_ascii_text(app_name@) ==> r@ == LIST_PROCESSES@ + ascii_lowercase(app_name@),
{
    list_command(to_lowercase(app_name).as_str())
}

impl PortalChoice {
    /// Nothing is known.
    pub fn new() -> (r: PortalChoice)
        ensures
            r == (PortalChoice { server_running: None, use_remote_desktop: None }),
    {
        PortalChoice { server_running: None, use_remote_desktop: None }
    }

    /// Whether the processes have to be listed to tell if the server runs.
    pub fn asks_processes(&self) -> (r: bool)
        ensures
            r == (self.server_running is None),
    {
        self.server_running.is_none()
    }

    /// Whether the server process runs. `listing` is what listing the processes printed, `None`
    /// where that failed. A failure counts as no server and is not remembered; what a listing
    /// tells is.
    pub fn is_server_running(&mut self, listing: Option<&[u8]>, app_name: &str) -> (r: bool)
        ensures
            final(self).use_remote_desktop == old(self).use_remote_desktop,
            match (old(self).server_running, listing) {
                (Some(known), _) => r == known && *final(self) == *old(self),
                (None, Some(b)) => {
                    &&& r == names_server(utf8_lossy(b@), lowercase(app_name@))
                    &&& is_ascii_text(app_name@) ==> lowercase(app_name@) == ascii_lowercase(
                        app_name@,
                    )
                    &&& vstd::utf8::valid_utf8(b@) ==> utf8_lossy(b@) == vstd::utf8::decode_utf8(
                        b@,
                    )
                    &&& final(self).server_running == Some(r)
                },
                (None, None) => !r && *final(self) == *old(self),
            },
    {
        match self.server_running {
            Some(known) => known,
            None => match listing {
                Some(bytes) => {
                    let text = from_utf8_lossy(bytes);
                    let app = to_lowercase(app_name);
                    let running = lists_server(text.as_str(), app.as_str());
                    self.server_running = Some(running);
                    running
                },
                None => false,
            },
        }
    }

    /// Whether the portal has to be asked for its device types to make the choice.
    pub fn asks_device_types(&self, server_running: bool) -> (r: bool)
        ensures
            r == (!server_running && self.use_remote_desktop is None),
    {
        !server_running && self.use_remote_desktop.is_none()
    }

    /// The choice, given whether the server runs and how many device types the portal has, `None`
    /// where asking failed.
    pub open spec fn chosen(self, server_running: bool, device_types: Option<u32>) -> bool {
        !server_running && match self.use_remote_desktop {
            Some(known) => known,
            None => device_types matches Some(n) && n > 0,
        }
    }

    /// Chooses between the remote desktop portal and the screen cast portal, and remembers the
    /// choice. With the server process running, input does not need the remote desktop portal.
    pub fn can_use_remote_desktop_portal(
        &mut self,
        server_running: bool,
        device_types: Option<u32>,
    ) -> (r: bool)
        ensures
            r == old(self).chosen(server_running, device_types),
            *final(self) == (PortalChoice { use_remote_desktop: Some(r), ..*old(self) }),
    {
        if server_running {
            self.use_remote_desktop = Some(false);
            return false;
        }
        match self.use_remote_desktop {
            Some(known) => known,
            None => {
                let use_rdp = match device_types {
                    Some(n) => n > 0,
                    None => false,
                };
                self.use_remote_desktop = Some(use_rdp);
                use_rdp
            },
        }
    }

    /// Whether it has to be known that the server runs to tell the choice.
    pub fn asks_server(&self) -> (r: bool)
        ensures
            r == (self.use_remote_desktop is None),
    {
        self.use_remote_desktop.is_none()
    }

    /// The choice as far as it was made; before that, the remote desktop portal counts as used
    /// unless the server runs.
    pub open spec fn cached(self, server_running: bool) -> bool {
        match self.use_remote_desktop {
            Some(known) => known,
            None => !server_running,
        }
    }

    /// The choice as far as it was made.
    pub fn can_use_remote_desktop_portal_cached(&self, server_running: bool) -> (r: bool)
        ensures
            r == self.cached(server_running),
    {
        match self.use_remote_desktop {
            Some(known) => known,
            None => !server_running,
        }
    }
}

/// Once the choice was made it is told again without asking anything, until the server is found
/// running.
pub proof fn law_choice_is_remembered(
    choice: PortalChoice,
    server_running: bool,
    device_types: Option<u32>,
    later_running: bool,
    later_types: Option<u32>,
)
    ensures
        ({
            let r = choice.chosen(server_running, device_types);
            let after = PortalChoice { use_remote_desktop: Some(r), ..choice };
            &&& after.cached(later_running) == r
            &&& after.chosen(false, later_types) == r
        }),
{
}

/// With the server running the remote desktop portal is never chosen.
pub proof fn law_server_rules_out_remote_desktop(choice: PortalChoice, device_types: Option<u32>)
    ensures
        !choice.chosen(true, device_types),
{
}

/// As long as nothing was chosen and no server runs, the remote desktop portal is chosen if and only
/// if it tells at least one device type. Before the choice it counts as used unless the server runs.
pub proof fn law_first_choice_goes_by_device_types(choice: PortalChoice, types: u32, running: bool)
    requires
        choice.use_remote_desktop is None,
    ensures
        choice.chosen(false, Some(types)) <==> types > 0,
        !choice.chosen(false, None),
        choice.cached(running) == !running,
{
}

/// A choice that was made is told as it was made.
pub proof fn law_choice_is_told_as_made(
    choice: PortalChoice,
    known: bool,
    types: Option<u32>,
    running: bool,
)
    requires
        choice.use_remote_desktop == Some(known),
    ensures
        choice.chosen(false, types) == known,
        choice.cached(running) == known,
{
}

/// A list of processes names the server if and only if the name of the application with the argument
/// for the server stands somewhere in it.
pub proof fn law_server_is_named_by_its_argument(
    before: Seq<char>,
    app: Seq<char>,
    after: Seq<char>,
    listing: Seq<char>,
)
    ensures
        names_server(before + (app + " --server"@) + after, app),
        names_server(listing, app) ==> exists|a: Seq<char>, b: Seq<char>| #[trigger]
            (a + (app + " --server"@) + b) == listing,
{
    law_texts_are_found_in_their_surroundings(before, app + " --server"@, after, listing);
}

/// ASCII ends at 127, and in lower case only its capital letters change, each to the letter that comes
/// 32 later.
pub proof fn law_ascii_letters_change_case(s: Seq<char>, i: int)
    requires
        0 <= i < s.len(),
    ensures
        is_ascii_text(s) ==> (s[i] as int) < 128,
        (forall|k: int| 0 <= k < s.len() ==> (#[trigger] s[k] as int) < 128) ==> is_ascii_text(s),
        ascii_lowercase(s).len() == s.len(),
        65 <= s[i] as int <= 90 ==> ascii_lowercase(s)[i] as int == s[i] as int + 32,
        !(65 <= s[i] as int <= 90) ==> ascii_lowercase(s)[i] == s[i],
{
}

} // verus!
