//! Checking for a newer release: the latest release's address ends in its version, which is
//! compared with the running one by semantic-versioning precedence.
use vstd::prelude::*;
use crate::text::{chars_of, push_str, split, split_on, string_of, views};

verus! {

/// Names whether `semver` reads a text as a version (`Version::parse` succeeds).
pub uninterp spec fn semver_valid(text: Seq<char>) -> bool;

/// Names whether, for two texts `semver` reads as versions, the first is the greater
/// (`Version`'s `>`).
pub uninterp spec fn semver_greater(a: Seq<char>, b: Seq<char>) -> bool;

/// Whether `semver::Version::parse` reads the text.
#[verifier::external_body]
fn version_parses(text: &str) -> (r: bool)
    ensures
        r == semver_valid(text@),
{
    semver::Version::parse(text).is_ok()
}

/// Whether the version `a` is greater than the version `b`, by `semver::Version`'s `>` on
/// the versions `Version::parse` reads from them.
#[verifier::external_body]
fn version_greater(a: &str, b: &str) -> (r: bool)
    requires
        semver_valid(a@),
        semver_valid(b@),
    ensures
        r == semver_greater(a@, b@),
{
    semver::Version::parse(a).unwrap() > semver::Version::parse(b).unwrap()
}

/// Why an update check failed.
#[derive(Clone, Copy, PartialEq, Eq, Structural, Debug)]
pub enum UpdateError {
    /// The running version is not a version.
    LocalVersion,
    /// The latest release's address does not end in a version.
    RemoteVersion,
}

/// The last `/`-separated piece of an address.
pub open spec fn last_piece(url: Seq<char>) -> Seq<char> {
    split_on(url, '/').last()
}

/// The latest release's version: the last piece of the address the release link leads to,
/// when it reads as a version.
pub fn get_remote_version(url: &str) -> (r: Result<String, UpdateError>)
    ensures
        match r {
            Ok(v) => semver_valid(last_piece(url@)) && v@ == last_piece(url@),
            Err(e) => !semver_valid(last_piece(url@)) && e == UpdateError::RemoteVersion,
        },
{
    let pieces = split(&chars_of(url), '/');
    let last = pieces.len() - 1;
    assert(views(pieces@)[last as int] == pieces@[last as int]@);
    let v = string_of(&pieces[last]);
    if version_parses(v.as_str()) {
        Ok(v)
    } else {
        Err(UpdateError::RemoteVersion)
    }
}

/// Whether the latest release is newer than the running version `local`; the running version
/// is read first.
pub fn check_for_updates(local: &str, url: &str) -> (r: Result<bool, UpdateError>)
    ensures
        !semver_valid(local@) ==> r == Err::<bool, UpdateError>(UpdateError::LocalVersion),
        semver_valid(local@) && !semver_valid(last_piece(url@)) ==> r == Err::<bool, UpdateError>(UpdateError::RemoteVersion),
        semver_valid(local@) && semver_valid(last_piece(url@))
            ==> r == Ok::<bool, UpdateError>(semver_greater(last_piece(url@), local@)),
{
    if !version_parses(local) {
        return Err(UpdateError::LocalVersion);
    }
    let remote = match get_remote_version(url) {
        Ok(v) => v,
        Err(e) => return Err(e),
    };
    Ok(version_greater(remote.as_str(), local))
}

/// The text of a terminal hyperlink (OSC 8) to `url` showing `text`.
pub open spec fn hyperlink_text(text: Seq<char>, url: Seq<char>) -> Seq<char> {
    "\u{1b}]8;;"@ + url + "\u{1b}\\"@ + text + "\u{1b}]8;;\u{1b}\\"@
}

/// Writes a terminal hyperlink with `terminal_link::Link::new(text, url)` displayed: the
/// OSC 8 escape with the address, the text, and the closing escape.
#[verifier::external_body]
fn hyperlink(text: &str, url: &str) -> (r: String)
    ensures
        r@ == hyperlink_text(text@, url@),
{
    format!("{}", terminal_link::Link::new(text, url))
}

/// The notice that an update is available, linking to the project's home page.
pub fn update_notice(repository: &str, version: &str, homepage: &str) -> (r: String)
    ensures
        r@ == hyperlink_text("An update is available: "@ + repository@ + "/releases/tag/"@ + version@, homepage@),
{
    let mut v = chars_of("An update is available: ");
    push_str(&mut v, repository);
    push_str(&mut v, "/releases/tag/");
    push_str(&mut v, version);
    let text = string_of(&v);
    hyperlink(text.as_str(), homepage)
}

} // verus!
