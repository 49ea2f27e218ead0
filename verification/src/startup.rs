//! What the server says of itself when it starts.

use crate::panel::address;
use crate::text::{decimal, trimmed};
use crate::text;
use crate::tls::text_of;
use vstd::prelude::*;

verus! {

/// What is said of the certificate.
pub const CERT_HINT: &'static str =
    "  (one-time: accept the self-signed certificate — 'proceed anyway')";

/// What is said where the build has no window and none was refused.
pub const NO_GUI: &'static str =
    "built without the `gui` feature — running headless (server-only)";

/// The name that clients are shown, if none was given.
pub open spec fn name_shown(computer: Option<Seq<char>>, host: Option<Seq<char>>) -> Seq<char> {
    match computer {
        Some(c) => c,
        None => match host {
            Some(h) => h,
            None => "Newfoundsync"@,
        },
    }
}

/// The name that clients are shown, if none was given: the machine's, or the program's.
pub fn default_name(computer: Option<&str>, host: Option<&str>) -> (s: String)
    ensures
        s@ == name_shown(text_of(computer), text_of(host)),
{
    match computer {
        Some(c) => c.to_string(),
        None => match host {
            Some(h) => h.to_string(),
            None => "Newfoundsync".to_string(),
        },
    }
}

/// Where the server can be reached, given the scheme.
pub open spec fn served_at(scheme: Seq<char>, lan: Option<Seq<char>>, port: u16) -> Seq<char> {
    scheme + "://"@ + (match lan {
        Some(a) => a,
        None => "<this-pc>"@,
    }) + ":"@ + decimal(port as nat)
}

/// The line that says where the server can be reached.
pub fn serving_line(name: &str, tls: bool, lan: Option<&str>, port: u16) -> (s: String)
    ensures
        s@ == "Newfoundsync '"@ + name@ + "' serving — open  "@ + served_at(
            if tls {
                "https"@
            } else {
                "http"@
            },
            text_of(lan),
            port,
        ) + "  in a browser on the LAN."@,
{
    let mut at = if tls {
        "https".to_string()
    } else {
        "http".to_string()
    };
    at.append("://");
    match lan {
        Some(a) => {
            at.append(a);
        },
        None => {
            at.append("<this-pc>");
        },
    }
    at.append(":");
    text::append_decimal(&mut at, port as u64);
    let mut s = "Newfoundsync '".to_string();
    s.append(name);
    s.append("' serving — open  ");
    s.append(at.as_str());
    s.append("  in a browser on the LAN.");
    s
}

/// The server and the control panel state the same address.
pub proof fn law_one_address(lan: Option<Seq<char>>, port: u16)
    ensures
        served_at("https"@, lan, port) == address(lan, port),
{
    reveal_strlit("https");
    reveal_strlit("://");
    reveal_strlit("https://");
    assert("https"@ + "://"@ =~= "https://"@);
}

/// The front of the line that says what is served; how much is buffered is said behind it.
pub fn source_line(device: &str, video: bool) -> (s: String)
    ensures
        s@ == "  source: "@ + device@ + "   video: "@ + (if video {
            "on"@
        } else {
            "off"@
        }) + "   buffer: "@,
{
    let mut s = "  source: ".to_string();
    s.append(device);
    s.append("   video: ");
    if video {
        s.append("on");
    } else {
        s.append("off");
    }
    s.append("   buffer: ");
    s
}

/// Whether a window is opened.
pub fn opens_window(has_gui: bool, headless: bool) -> (r: bool)
    ensures
        r == (has_gui && !headless),
{
    has_gui && !headless
}

/// The stamp of a build.
pub open spec fn stamp_text(commit: Option<Seq<char>>, dirty: bool) -> Seq<char> {
    (match commit {
        Some(c) => if trimmed(c).len() > 0 {
            trimmed(c)
        } else {
            "unknown"@
        },
        None => "unknown"@,
    }) + (if dirty {
        "-dirty"@
    } else {
        Seq::empty()
    })
}

/// The stamp of a build: the commit that it was made from, if that is known, and whether its
/// sources differ from it.
pub fn commit_stamp(commit: Option<&str>, dirty: bool) -> (s: String)
    ensures
        s@ == stamp_text(text_of(commit), dirty),
{
    let mut s = match commit {
        Some(c) => {
            let t = text::trim(c);
            if text::chars_of(t.as_str()).len() > 0 {
                t
            } else {
                "unknown".to_string()
            }
        },
        None => "unknown".to_string(),
    };
    if dirty {
        s.append("-dirty");
    } else {
        assert(s@ =~= s@ + Seq::<char>::empty());
    }
    s
}

/// What identifies a build: its version and its stamp.
pub fn build_id(version: &str, stamp: &str) -> (s: String)
    ensures
        s@ == version@ + " ("@ + stamp@ + ")"@,
{
    let mut s = version.to_string();
    s.append(" (");
    s.append(stamp);
    s.append(")");
    s
}

/// A build is stamped with its commit, without the white space around it, and marked if its sources
/// differ; a commit that is not known, or blank, is said to be unknown.
pub proof fn law_stamps(commit: Seq<char>, dirty: bool)
    ensures
        trimmed(commit).len() > 0 ==> stamp_text(Some(commit), false) == trimmed(commit),
        trimmed(commit).len() == 0 ==> stamp_text(Some(commit), dirty) == stamp_text(None, dirty),
        stamp_text(None, false) == "unknown"@,
        stamp_text(Some(commit), true) == stamp_text(Some(commit), false) + "-dirty"@,
{
    assert(stamp_text(None, false) =~= "unknown"@);
    assert(stamp_text(Some(commit), true) =~= stamp_text(Some(commit), false) + "-dirty"@);
    if trimmed(commit).len() > 0 {
        assert(stamp_text(Some(commit), false) =~= trimmed(commit));
    }
}

/// A machine that has a name is shown by it, the computer's before the host's.
pub proof fn law_names_shown(computer: Seq<char>, host: Option<Seq<char>>, other: Seq<char>)
    ensures
        name_shown(Some(computer), host) == computer,
        name_shown(None, Some(other)) == other,
        name_shown(None, None) == "Newfoundsync"@,
{
}

/// The server is reached by the scheme that it serves, at its address on the network and its port.
pub proof fn law_served_address(scheme: Seq<char>, lan: Seq<char>, port: u16)
    ensures
        served_at(scheme, Some(lan), port) == scheme + "://"@ + lan + ":"@ + decimal(port as nat),
        served_at(scheme, None, port) == served_at(scheme, Some("<this-pc>"@), port),
{
}

} // verus!
