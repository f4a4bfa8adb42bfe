//! Server list information.

use vstd::prelude::*;
use vstd::string::{StringExecFns, StrSliceExecFns};
use crate::text::Text;
use crate::version::{Version, version_table};

verus! {

/// Server list information.
#[derive(Debug)]
pub struct Status {
    /// Server version.
    pub version: StatusVersion,
    /// Online player information.
    pub players: Option<StatusPlayers>,
    /// The server list message of the day.
    pub motd: Option<Text>,
    /// A base 64 PNG image, without the `data:image/png;base64,` header.
    pub favicon: Option<String>,
    /// Whether the server requires chat message signatures.
    pub requires_chat_signing: bool,
    /// Whether the server strips chat message signatures.
    pub prevents_chat_reports: bool,
}

/// Server list version information.
#[derive(Clone, Debug)]
pub struct StatusVersion {
    /// Name of the version.
    pub name: String,
    /// Protocol ID of the version.
    pub protocol: u32,
}

impl Default for StatusVersion {
    /// The default version information names the newest version this
    /// crate speaks.
    fn default() -> (r: Self)
        ensures
            r.protocol == 772,
            r.name@ == version_table()[5].1.first(),
    {
        let current = Version::current();
        let name = current.earliest_name();
        StatusVersion { name: name.to_owned(), protocol: current.id() }
    }
}

/// Server list player information.
#[derive(Clone, Debug)]
pub struct StatusPlayers {
    /// Number of players currently online.
    pub current: u32,
    /// Maximum number of players allowed on the server.
    pub max: u32,
}

impl Default for Status {
    /// The default status: current version, no player sample, a plain
    /// message of the day, no icon, and no chat signing.
    fn default() -> (r: Self)
        ensures
            r.version.protocol == 772,
            r.players is None,
            r.motd is Some,
            r.favicon is None,
            !r.requires_chat_signing,
            r.prevents_chat_reports,
    {
        Status {
            version: StatusVersion::default(),
            players: None,
            motd: Some(Text::literal("A server".to_owned())),
            favicon: None,
            requires_chat_signing: false,
            prevents_chat_reports: true,
        }
    }
}

/// The textual header that precedes a base 64 PNG icon.
pub open spec fn png_header() -> Seq<char> {
    "data:image/png;base64,"@
}

/// Prefixes a base 64 PNG with the data-URL header.
pub fn add_png_b64_header(png_b64: &str) -> (r: String)
    ensures
        r@ == png_header() + png_b64@,
{
    let mut out = String::from_str("data:image/png;base64,");
    out.append(png_b64);
    out
}

/// Strips the data-URL header from a base 64 PNG, if it is present.
pub fn remove_png_b64_header(png_b64: &str) -> (r: String)
    ensures
        ({
            let s = png_b64@;
            if s.len() >= png_header().len() && s.take(png_header().len() as int)
                == png_header() {
                r@ == s.skip(png_header().len() as int)
            } else {
                r@ == s
            }
        }),
{
    proof {
        reveal_strlit("data:image/png;base64,");
    }
    let n = png_b64.unicode_len();
    if n >= 22 {
        let head = png_b64.substring_char(0, 22);
        if crate::strings::str_eq(head, "data:image/png;base64,") {
            let tail = png_b64.substring_char(22, n);
            return tail.to_owned();
        }
    }
    png_b64.to_owned()
}

} // verus!
