//! The pure part of the git remote flipper: holding the parts of a remote
//! URL and rebuilding it in ssh or https form. Reading the remote from git
//! and writing it back are the caller's business.

use vstd::prelude::*;

verus! {

/// The scheme of a git remote URL, as far as the flipping logic cares.
#[derive(Clone, Copy, Debug, PartialEq, Eq, Structural)]
pub enum UrlScheme {
    Ssh,
    Https,
    Http,
    Other,
}

/// The parts of a git remote URL that the flipping logic reads, together
/// with the raw text it was built from.
#[derive(Clone, Debug, PartialEq)]
pub struct Remote {
    pub scheme: UrlScheme,
    pub owner: Option<String>,
    pub name: String,
    pub raw: String,
}

/// The ssh form of a github remote, `git@github.com:owner/name.git`.
pub open spec fn spec_ssh_url(owner: Seq<char>, name: Seq<char>) -> Seq<char> {
    "git@github.com:"@ + owner + "/"@ + name + ".git"@
}

/// The https form of a github remote, `https://github.com/owner/name.git`.
pub open spec fn spec_https_url(owner: Seq<char>, name: Seq<char>) -> Seq<char> {
    "https://github.com/"@ + owner + "/"@ + name + ".git"@
}

/// A character that may stand in remote URL text handed to the URL parser:
/// printable ASCII (so no spaces and no control characters that a URL
/// parser would strip, and nothing beyond ASCII), and none of `%`, `?`,
/// `#`, which start percent-encoded groups, queries and fragments.
pub open spec fn url_char_ok(c: char) -> bool {
    &&& 32 < (c as int)
    &&& (c as int) < 127
    &&& c != '%'
    &&& c != '?'
    &&& c != '#'
}

/// The character matches the given lowercase letter, in either case.
pub open spec fn ci_letter(c: char, lower: char) -> bool {
    c == lower || (c as int) == (lower as int) - 32
}

/// A path segment starting with `.` begins at position `i`: a `.` right
/// after a `/` or after the `:` of an scp-style remote.
pub open spec fn dot_segment_at(s: Seq<char>, i: int) -> bool {
    (s[i] == '/' || s[i] == ':') && s[i + 1] == '.'
}

/// Some path segment starts with `.`.
pub open spec fn has_dot_segment(s: Seq<char>) -> bool {
    exists|i: int| 0 <= i && i + 2 <= s.len() && dot_segment_at(s, i)
}

/// The host text `dev.azure.com` stands at position `i`, in any case.
pub open spec fn azure_host_at(s: Seq<char>, i: int) -> bool {
    &&& ci_letter(s[i], 'd')
    &&& ci_letter(s[i + 1], 'e')
    &&& ci_letter(s[i + 2], 'v')
    &&& s[i + 3] == '.'
    &&& ci_letter(s[i + 4], 'a')
    &&& ci_letter(s[i + 5], 'z')
    &&& ci_letter(s[i + 6], 'u')
    &&& ci_letter(s[i + 7], 'r')
    &&& ci_letter(s[i + 8], 'e')
    &&& s[i + 9] == '.'
    &&& ci_letter(s[i + 10], 'c')
    &&& ci_letter(s[i + 11], 'o')
    &&& ci_letter(s[i + 12], 'm')
}

/// The host text `dev.azure.com` occurs somewhere in the text; this also
/// covers `ssh.dev.azure.com`, which contains it.
pub open spec fn mentions_azure_host(s: Seq<char>) -> bool {
    exists|i: int| 0 <= i && i + 13 <= s.len() && azure_host_at(s, i)
}

/// The text begins with an `ssh:` scheme that is not followed by `//`, so
/// its path is opaque to a URL parser.
pub open spec fn opaque_ssh_form(s: Seq<char>) -> bool {
    &&& s.len() >= 4
    &&& (s[0] == 's' || s[0] == 'S')
    &&& (s[1] == 's' || s[1] == 'S')
    &&& (s[2] == 'h' || s[2] == 'H')
    &&& s[3] == ':'
    &&& !(s.len() >= 6 && s[4] == '/' && s[5] == '/')
}

/// Remote URL text that is handed on to the URL parser: every character
/// printable ASCII and none of `%`, `?`, `#`; no path segment starting
/// with `.`; no mention of the Azure DevOps host; and no opaque `ssh:`
/// form.
pub open spec fn plain_url_text(s: Seq<char>) -> bool {
    &&& forall|i: int| 0 <= i < s.len() ==> url_char_ok(#[trigger] s[i])
    &&& !has_dot_segment(s)
    &&& !mentions_azure_host(s)
    &&& !opaque_ssh_form(s)
}

/// Whether the character is the given lowercase letter, in either case.
fn is_ci(c: char, lower: char) -> (r: bool)
    ensures
        r == ci_letter(c, lower),
{
    c == lower || (c as u32) + 32 == (lower as u32)
}

/// Decides `plain_url_text` by one pass over the characters.
fn url_text_is_plain(s: &str) -> (r: bool)
    ensures
        r == plain_url_text(s@),
{
    let len = s.unicode_len();
    if len >= 4 {
        let c0 = s.get_char(0);
        let c1 = s.get_char(1);
        let c2 = s.get_char(2);
        let c3 = s.get_char(3);
        if (c0 == 's' || c0 == 'S') && (c1 == 's' || c1 == 'S') && (c2 == 'h' || c2 == 'H') && c3
            == ':' {
            if len >= 6 {
                let c4 = s.get_char(4);
                let c5 = s.get_char(5);
                if !(c4 == '/' && c5 == '/') {
                    return false;
                }
            } else {
                return false;
            }
        }
    }
    let mut i: usize = 0;
    while i < len
        invariant
            0 <= i <= len,
            len == s@.len(),
            forall|j: int| 0 <= j < i ==> url_char_ok(#[trigger] s@[j]),
            forall|j: int| 0 <= j < i && j + 2 <= s@.len() ==> !dot_segment_at(s@, j),
            forall|j: int| 0 <= j < i && j + 13 <= s@.len() ==> !azure_host_at(s@, j),
        decreases len - i,
    {
        let c = s.get_char(i);
        let v = c as u32;
        if v <= 32 || v >= 127 || c == '%' || c == '?' || c == '#' {
            return false;
        }
        if len >= 2 && i <= len - 2 {
            if (c == '/' || c == ':') && s.get_char(i + 1) == '.' {
                proof {
                    assert(dot_segment_at(s@, i as int));
                }
                return false;
            }
        }
        if len >= 13 && i <= len - 13 {
            if is_ci(c, 'd') && is_ci(s.get_char(i + 1), 'e') && is_ci(s.get_char(i + 2), 'v')
                && s.get_char(i + 3) == '.' && is_ci(s.get_char(i + 4), 'a') && is_ci(
                s.get_char(i + 5),
                'z',
            ) && is_ci(s.get_char(i + 6), 'u') && is_ci(s.get_char(i + 7), 'r') && is_ci(
                s.get_char(i + 8),
                'e',
            ) && s.get_char(i + 9) == '.' && is_ci(s.get_char(i + 10), 'c') && is_ci(
                s.get_char(i + 11),
                'o',
            ) && is_ci(s.get_char(i + 12), 'm') {
                proof {
                    assert(azure_host_at(s@, i as int));
                }
                return false;
            }
        }
        i = i + 1;
    }
    true
}

/// What `git_url_parse::GitUrl::parse` makes of remote URL text: nothing
/// when it refuses the text, else the scheme it classifies and the owner
/// and repository name it extracts.
pub uninterp spec fn parsed_git_url(s: Seq<char>) -> Option<
    (UrlScheme, Option<Seq<char>>, Seq<char>),
>;

/// Relies on git_url_parse::GitUrl::parse to split a git remote URL into
/// its scheme, owner and repository name; the three are handed back as
/// plain values, named `parsed_git_url` of the text alone. The
/// precondition keeps away the inputs on which that function can panic:
/// URLs whose host is the Azure DevOps one, where it indexes fixed path
/// positions, and text whose ssh path could collapse to nothing under the
/// URL parser's trimming and dot-segment removal, where it slices and
/// indexes an empty path.
#[verifier::external_body]
fn parse_git_url(input: &str) -> (r: Option<(UrlScheme, Option<String>, String)>)
    requires
        plain_url_text(input@),
    ensures
        r is Some <==> parsed_git_url(input@) is Some,
        r matches Some(parts) ==> (parsed_git_url(input@) matches Some(q) && parts.0 == q.0 && (
        parts.1 is Some <==> q.1 is Some) && (parts.1 matches Some(o) ==> q.1 == Some(o@))
            && parts.2@ == q.2),
{
    match git_url_parse::GitUrl::parse(input) {
        Ok(u) => {
            let scheme = match u.scheme {
                git_url_parse::Scheme::Ssh => UrlScheme::Ssh,
                git_url_parse::Scheme::Https => UrlScheme::Https,
                git_url_parse::Scheme::Http => UrlScheme::Http,
                _ => UrlScheme::Other,
            };
            Some((scheme, u.owner, u.name))
        },
        Err(_) => None,
    }
}

impl Remote {
    /// Builds a remote from the raw URL text that `git remote get-url`
    /// printed: the URL parser's scheme, owner and name, with the raw text
    /// kept. Text that is not plain enough for the URL parser (see
    /// `plain_url_text`) is refused outright.
    pub fn new(input: String) -> (r: Option<Remote>)
        ensures
            !plain_url_text(input@) ==> r is None,
            plain_url_text(input@) ==> (r is Some <==> parsed_git_url(input@) is Some),
            r matches Some(rem) ==> ({
                &&& rem.raw@ == input@
                &&& parsed_git_url(input@) matches Some(q)
                &&& rem.scheme == q.0
                &&& (rem.owner is Some <==> q.1 is Some)
                &&& (rem.owner matches Some(o) ==> q.1 == Some(o@))
                &&& rem.name@ == q.2
            }),
    {
        if !url_text_is_plain(input.as_str()) {
            return None;
        }
        match parse_git_url(input.as_str()) {
            Some((scheme, owner, name)) => Some(Remote { scheme, owner, name, raw: input }),
            None => None,
        }
    }

    /// The ssh form of this remote on github.
    fn ssh_url(&self) -> (r: String)
        requires
            self.owner is Some,
        ensures
            r@ == spec_ssh_url(self.owner.unwrap()@, self.name@),
    {
        let mut s = String::from_str("git@github.com:");
        s.append(self.owner.as_ref().unwrap().as_str());
        s.append("/");
        s.append(self.name.as_str());
        s.append(".git");
        proof {
            assert(s@ =~= spec_ssh_url(self.owner.unwrap()@, self.name@));
        }
        s
    }

    /// The https form of this remote on github.
    fn https_url(&self) -> (r: String)
        requires
            self.owner is Some,
        ensures
            r@ == spec_https_url(self.owner.unwrap()@, self.name@),
    {
        let mut s = String::from_str("https://github.com/");
        s.append(self.owner.as_ref().unwrap().as_str());
        s.append("/");
        s.append(self.name.as_str());
        s.append(".git");
        proof {
            assert(s@ =~= spec_https_url(self.owner.unwrap()@, self.name@));
        }
        s
    }

    /// The URL in the other form: an ssh remote flips to https, and
    /// everything else, unknown schemes included, flips to ssh.
    pub fn flip_url(&self) -> (r: String)
        requires
            self.owner is Some,
        ensures
            self.scheme is Ssh ==> r@ == spec_https_url(self.owner.unwrap()@, self.name@),
            !(self.scheme is Ssh) ==> r@ == spec_ssh_url(self.owner.unwrap()@, self.name@),
    {
        match self.scheme {
            UrlScheme::Ssh => self.https_url(),
            UrlScheme::Https => self.ssh_url(),
            UrlScheme::Http => self.ssh_url(),
            UrlScheme::Other => self.ssh_url(),
        }
    }

    /// The URL in ssh form, whatever form it is in now.
    pub fn to_ssh(&self) -> (r: String)
        requires
            self.owner is Some,
        ensures
            r@ == spec_ssh_url(self.owner.unwrap()@, self.name@),
    {
        self.ssh_url()
    }

    /// The URL in https form, whatever form it is in now.
    pub fn to_https(&self) -> (r: String)
        requires
            self.owner is Some,
        ensures
            r@ == spec_https_url(self.owner.unwrap()@, self.name@),
    {
        self.https_url()
    }
}

} // verus!
