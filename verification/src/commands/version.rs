//! `version`: comparing the installed version with the latest release.

use vstd::prelude::*;
use vstd::string::*;
use crate::text::{to_chars, from_chars, trim_start_class_chars, trim_start_class, CharClass};

verus! {

broadcast use vstd::string::group_string_axioms;

/// A release tag without its leading `v`s (`trim_start_matches('v')`).
pub open spec fn release_version_spec(tag: Seq<char>) -> Seq<char> {
    trim_start_class(tag, CharClass::Exactly('v'))
}

/// The version a release tag names: the tag without leading `v`s.
pub fn release_version(tag_name: &str) -> (r: String)
    ensures
        r@ == release_version_spec(tag_name@),
{
    from_chars(&trim_start_class_chars(&to_chars(tag_name), &CharClass::Exactly('v')))
}

/// Whether the release tagged `tag_name` is the installed version `current`.
pub fn is_current_release(tag_name: &str, current: &str) -> (r: bool)
    ensures
        r == (release_version_spec(tag_name@) == current@),
{
    let latest = release_version(tag_name);
    crate::config::same_text(latest.as_str(), current)
}

/// The API address of the latest release of repository `repo_slug`.
pub fn release_api_url(repo_slug: &str) -> (r: String)
    ensures
        r@ == "https://api.github.com/repos/"@ + repo_slug@ + "/releases/latest"@,
{
    let mut r = "https://api.github.com/repos/".to_string();
    r.append(repo_slug);
    r.append("/releases/latest");
    r
}

/// The user agent the release query sends.
pub fn user_agent(version: &str) -> (r: String)
    ensures
        r@ == "ez-vps/"@ + version@,
{
    let mut r = "ez-vps/".to_string();
    r.append(version);
    r
}

} // verus!
