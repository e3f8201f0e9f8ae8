//! What may be opened in the browser, and with which program.

use std::path::PathBuf;

use vstd::prelude::*;

use crate::strs::{chars_of, concat};

verus! {

/// The platform, which decides the programs that open and copy.
#[derive(Debug, Clone, Copy, PartialEq, Eq, Structural)]
pub enum Platform {
    MacOs,
    Other,
}

/// Lowercases an ASCII letter and leaves every other character alone.
pub open spec fn ascii_lower(c: char) -> char {
    if 'A' <= c && c <= 'Z' {
        ((c as u8) + 32) as char
    } else {
        c
    }
}

/// Whether `url` starts with `scheme` (ASCII case ignored) and has more after it.
pub open spec fn has_scheme(url: Seq<char>, scheme: Seq<char>) -> bool {
    &&& url.len() > scheme.len()
    &&& forall|i: int| 0 <= i < scheme.len() ==> ascii_lower(#[trigger] url[i]) == ascii_lower(scheme[i])
}

/// A URL is opened only when it is a web URL: `https://` or `http://` (in any case) and more.
pub open spec fn is_web_url(url: Seq<char>) -> bool {
    has_scheme(url, "https://"@) || has_scheme(url, "http://"@)
}

fn lower(c: char) -> (r: char)
    ensures
        r == ascii_lower(c),
{
    if 'A' <= c && c <= 'Z' {
        ((c as u8) + 32) as char
    } else {
        c
    }
}

fn starts_with_scheme(url: &[char], scheme: &str) -> (r: bool)
    ensures
        r == has_scheme(url@, scheme@),
{
    let s = chars_of(scheme);
    if url.len() <= s.len() {
        return false;
    }
    let mut i: usize = 0;
    while i < s.len()
        invariant
            0 <= i <= s@.len(),
            s@ == scheme@,
            url@.len() > s@.len(),
            forall|k: int| 0 <= k < i ==> ascii_lower(#[trigger] url@[k]) == ascii_lower(s@[k]),
        decreases s@.len() - i,
    {
        if lower(url[i]) != lower(s[i]) {
            return false;
        }
        i = i + 1;
    }
    true
}

/// Accepts a URL for the browser only when it is a web URL. Check URLs come from whatever
/// GitHub App or CI posted the check, not from GitHub itself, and `open`/`xdg-open` would
/// otherwise launch `file://` paths, app bundles or any custom URL scheme handler.
pub fn web_url(url: &str) -> (r: Result<&str, String>)
    ensures
        r is Ok <==> is_web_url(url@),
        r matches Ok(u) ==> u@ == url@,
        r matches Err(e) ==> e@ == "refusing to open `"@ + url@ + "`: not an http(s) URL"@,
{
    let chars = chars_of(url);
    if starts_with_scheme(chars.as_slice(), "https://") || starts_with_scheme(
        chars.as_slice(),
        "http://",
    ) {
        Ok(url)
    } else {
        Err(concat(concat("refusing to open `", url).as_str(), "`: not an http(s) URL"))
    }
}

/// Opens URLs with the platform's launcher and copies with its clipboard tool.
pub struct SystemOpener {
    pub open_program: PathBuf,
}

pub open spec fn open_program_of(platform: Platform) -> Seq<char> {
    match platform {
        Platform::MacOs => "open"@,
        Platform::Other => "xdg-open"@,
    }
}

impl SystemOpener {
    /// The browser launcher to spawn instead of the platform's `open`/`xdg-open`.
    pub fn with_open_program(open_program: PathBuf) -> (r: SystemOpener)
        ensures
            r.open_program == open_program,
    {
        SystemOpener { open_program }
    }

    /// `open` on macOS, `xdg-open` elsewhere.
    pub fn default_open_program(platform: Platform) -> (r: &'static str)
        ensures
            r@ == open_program_of(platform),
    {
        match platform {
            Platform::MacOs => "open",
            Platform::Other => "xdg-open",
        }
    }

    /// The launcher and the URL.
    pub fn open_args(platform: Platform, url: &str) -> (r: Vec<String>)
        ensures
            r@.map_values(|s: String| s@) == seq![open_program_of(platform), url@],
    {
        let mut args: Vec<String> = Vec::new();
        args.push(Self::default_open_program(platform).to_owned());
        args.push(url.to_owned());
        assert(args@.map_values(|s: String| s@) =~= seq![open_program_of(platform), url@]);
        args
    }

    /// `pbcopy` on macOS, `xclip -selection clipboard` elsewhere.
    pub fn copy_args(platform: Platform) -> (r: Vec<String>)
        ensures
            r@.map_values(|s: String| s@) == match platform {
                Platform::MacOs => seq!["pbcopy"@],
                Platform::Other => seq!["xclip"@, "-selection"@, "clipboard"@],
            },
    {
        let mut args: Vec<String> = Vec::new();
        match platform {
            Platform::MacOs => {
                args.push("pbcopy".to_owned());
            },
            Platform::Other => {
                args.push("xclip".to_owned());
                args.push("-selection".to_owned());
                args.push("clipboard".to_owned());
            },
        }
        assert(args@.map_values(|s: String| s@) =~= match platform {
            Platform::MacOs => seq!["pbcopy"@],
            Platform::Other => seq!["xclip"@, "-selection"@, "clipboard"@],
        });
        args
    }
}

} // verus!
