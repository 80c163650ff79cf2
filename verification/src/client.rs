//! The client side of the protocol: assembling a `Notify` call from
//! command-line options. The transport call itself and the argument parser
//! live with the binary.
use vstd::prelude::*;

use crate::error::ProtocolError;
use crate::hints::{file_url_from_path, file_url_of, Hints, ImageRef, spec_parse_image_ref};
use crate::server::{spec_pair_actions, strings_view, Action};

verus! {

/// Whether a command-line image is sent as a path hint or as raw bytes.
#[derive(Clone, Copy, Debug, PartialEq, Eq, Structural)]
pub enum ImageAs {
    Path,
    Bytes,
}

/// The options of one notification to send. The copy that carries the
/// argument-parser attributes lives with the binary.
#[derive(Debug)]
pub struct NotifyOpt {
    /// The application name the notification is from.
    pub app_name: Option<String>,
    /// The name of the icon to display, or a path to it; paths contain a `.`
    /// or a `/` to disambiguate from icon names.
    pub icon: Option<String>,
    /// The path of the image to display.
    pub image: Option<String>,
    /// The summary of the notification.
    pub summary: String,
    /// The actions offered, each given as `key:label`.
    pub action: Vec<Action>,
    /// The body of the notification.
    pub body: Option<String>,
    /// Whether to send the image as a path or as bytes.
    pub image_as: ImageAs,
}

/// Splits a `key:label` argument at its first colon. A string without a
/// colon is no action; the binary's argument parser reports that as an
/// invalid argument.
pub fn parse_action(s: &str) -> (r: Option<Action>)
    ensures
        r is Some <==> s@.contains(':'),
        r matches Some(a) ==> exists|i: int|
            0 <= i < s@.len() && s@[i] == ':' && (forall|j: int| 0 <= j < i ==> s@[j] != ':')
                && a.key@ == s@.subrange(0, i) && a.label@ == s@.subrange(i + 1, s@.len() as int),
{
    match crate::text::find_char(s, ':') {
        Some(i) => {
            let n = s.unicode_len();
            let key = s.substring_char(0, i).to_owned();
            let label = s.substring_char(i + 1, n).to_owned();
            let a = Action { key, label };
            proof {
                assert(s@[i as int] == ':');
                assert(s@.contains(':'));
            }
            Some(a)
        },
        None => None,
    }
}

/// The `app_icon` wire string for a send: empty when no icon was given, a
/// path-like icon (one with a `.` or a `/`) converted to the `file://` URL of
/// its canonical absolute form, and an icon name passed through as it is.
///
/// `canonical` hands in the canonicalized absolute form of the icon path,
/// which only a caller with filesystem access can compute; `None` then means
/// the path could not be resolved, which rejects the send.
pub fn format_icon(icon: &Option<String>, canonical: Option<&str>) -> (r: Result<
    String,
    ProtocolError,
>)
    requires
        canonical matches Some(p) ==> p@.len() < 0x10000000,
    ensures
        icon is None ==> (r matches Ok(s) && s@.len() == 0),
        match icon {
            Some(ic) => if !(ic@.contains('.') || ic@.contains('/')) {
                r matches Ok(s) && s@ == ic@
            } else {
                match canonical {
                    Some(p) => if p@.len() > 0 && p@[0] == '/' {
                        r matches Ok(s) && s@ == file_url_of(p@)
                    } else {
                        r == Err::<String, ProtocolError>(ProtocolError::InvalidResource)
                    },
                    None => r == Err::<String, ProtocolError>(ProtocolError::InvalidResource),
                }
            },
            None => true,
        },
{
    match icon {
        Some(ic) => {
            if crate::text::contains_char(ic.as_str(), '.') || crate::text::contains_char(
                ic.as_str(),
                '/',
            ) {
                match canonical {
                    Some(p) => match file_url_from_path(p) {
                        Some(u) => Ok(u),
                        None => Err(ProtocolError::InvalidResource),
                    },
                    None => Err(ProtocolError::InvalidResource),
                }
            } else {
                Ok(ic.clone())
            }
        },
        None => Ok(String::new()),
    }
}

/// The hints dictionary for a send whose image travels as a path hint: the
/// image option parses as an image reference. Sending the image as raw bytes
/// needs the image decoder, so the binary builds that hint itself from the
/// decoded bitmap.
pub fn fill_hints(options: &NotifyOpt, image_canonical: Option<&str>) -> (r: Result<
    Hints,
    ProtocolError,
>)
    requires
        options.image_as is Path,
        image_canonical matches Some(p) ==> p@.len() < 0x10000000,
    ensures
        options.image is None ==> (r matches Ok(h) && h@ is None),
        options.image matches Some(s) ==> match spec_parse_image_ref(
            s@,
            crate::hints::opt_str_view(image_canonical),
        ) {
            Ok(i) => r matches Ok(h) && h@ == Some(i),
            Err(e) => r == Err::<Hints, ProtocolError>(e),
        },
{
    match &options.image {
        Some(s) => match ImageRef::parse(s.as_str(), image_canonical) {
            Ok(i) => Ok(Hints { image: Some(i) }),
            Err(e) => Err(e),
        },
        None => Ok(Hints::new()),
    }
}

/// The flat wire form of an action list: each key immediately followed by its
/// label, so that pairing the flat list up again yields the actions.
pub fn flatten_actions(actions: &Vec<Action>) -> (r: Vec<String>)
    ensures
        r@.len() == 2 * actions@.len(),
        spec_pair_actions(strings_view(r@)) == actions@.map_values(|a: Action| a@),
{
    let n = actions.len();
    let mut out: Vec<String> = Vec::new();
    let mut i: usize = 0;
    while i < n
        invariant
            n == actions@.len(),
            i <= n,
            out@.len() == 2 * i,
            forall|j: int|
                0 <= j < i ==> (out@[2 * j]@ == actions@[j].key@ && out@[2 * j + 1]@
                    == actions@[j].label@),
        decreases n - i,
    {
        out.push(actions[i].key.clone());
        out.push(actions[i].label.clone());
        i = i + 1;
    }
    proof {
        assert(spec_pair_actions(strings_view(out@)) =~= actions@.map_values(|a: Action| a@));
    }
    out
}

} // verus!
