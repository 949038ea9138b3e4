//! The forbidden filter: a URL is rejected when its host contains any of a
//! list of forbidden host substrings, or its path any of a list of forbidden
//! path substrings. Checked before admission, so forbidden URLs never reach
//! the dedup set or the network.

use vstd::prelude::*;
use vstd::string::*;
use crate::text::{has_sub, contains_sub};
use crate::urls::{CrawlUrl, UrlModel};

verus! {

/// The crawl's options: the blocklists and whether word tallying is on.
pub struct Config {
    pub forbidden_hosts: Vec<String>,
    pub forbidden_paths: Vec<String>,
    pub count_words: bool,
}

/// Some entry of `subs` occurs in `s`.
pub open spec fn any_sub(s: Seq<char>, subs: Seq<Seq<char>>) -> bool {
    exists|i: int| 0 <= i < subs.len() && has_sub(s, subs[i])
}

/// The filter's verdict on a URL: forbidden host or forbidden path.
pub open spec fn forbidden_spec(
    hosts: Seq<Seq<char>>,
    paths: Seq<Seq<char>>,
    u: UrlModel,
) -> bool {
    any_sub(u.host, hosts) || any_sub(u.path, paths)
}

fn any_sub_exec(s: &str, subs: &Vec<String>) -> (r: bool)
    ensures
        r == any_sub(s@, subs.deep_view()),
{
    let n = subs.len();
    let mut i: usize = 0;
    while i < n
        invariant
            n == subs.len(),
            i <= n,
            forall|k: int| 0 <= k < i ==> !has_sub(s@, subs.deep_view()[k]),
        decreases n - i,
    {
        assert(subs.deep_view()[i as int] == subs@[i as int]@);
        if contains_sub(s, subs[i].as_str()) {
            return true;
        }
        i += 1;
    }
    false
}

/// Whether the blocklists reject `u`: true exactly when the host holds a
/// forbidden host substring or the path holds a forbidden path substring.
pub fn is_forbidden(config: &Config, u: &CrawlUrl) -> (r: bool)
    ensures
        r == forbidden_spec(
            config.forbidden_hosts.deep_view(),
            config.forbidden_paths.deep_view(),
            u@,
        ),
{
    if any_sub_exec(u.host.as_str(), &config.forbidden_hosts) {
        return true;
    }
    any_sub_exec(u.path.as_str(), &config.forbidden_paths)
}

/// The stock forbidden host substrings.
pub open spec fn default_hosts() -> Seq<Seq<char>> {
    seq![
        "google"@,
        "youtube"@,
        "wikipedia"@,
        "reddit"@,
        "yahoo"@,
        "pinterest"@,
        "linkedin"@,
        "facebook"@,
        "x.com"@,
        "discourse.org"@,
        "adr"@,
        "brevo"@,
        "github"@,
        "music.apple.com"@,
        "spotify"@,
    ]
}

/// The stock forbidden path substrings.
pub open spec fn default_paths() -> Seq<Seq<char>> {
    seq!["legal"@, "policy"@, "privacy"@, "guidelines"@, "support"@]
}

fn push_str(list: &mut Vec<String>, entry: &str)
    ensures
        final(list)@.len() == old(list)@.len() + 1,
        final(list).deep_view() == old(list).deep_view().push(entry@),
{
    list.push(entry.to_owned());
    proof {
        assert(list.deep_view() =~= old(list).deep_view().push(entry@));
    }
}

/// The stock blocklists and options of the crawler.
pub fn default_config(count_words: bool) -> (r: Config)
    ensures
        r.count_words == count_words,
        r.forbidden_hosts.deep_view() == default_hosts(),
        r.forbidden_paths.deep_view() == default_paths(),
{
    let mut forbidden_hosts: Vec<String> = Vec::new();
    push_str(&mut forbidden_hosts, "google");
    push_str(&mut forbidden_hosts, "youtube");
    push_str(&mut forbidden_hosts, "wikipedia");
    push_str(&mut forbidden_hosts, "reddit");
    push_str(&mut forbidden_hosts, "yahoo");
    push_str(&mut forbidden_hosts, "pinterest");
    push_str(&mut forbidden_hosts, "linkedin");
    push_str(&mut forbidden_hosts, "facebook");
    push_str(&mut forbidden_hosts, "x.com");
    push_str(&mut forbidden_hosts, "discourse.org");
    push_str(&mut forbidden_hosts, "adr");
    push_str(&mut forbidden_hosts, "brevo");
    push_str(&mut forbidden_hosts, "github");
    push_str(&mut forbidden_hosts, "music.apple.com");
    push_str(&mut forbidden_hosts, "spotify");
    proof {
        assert(forbidden_hosts.deep_view() =~= default_hosts());
    }
    let mut forbidden_paths: Vec<String> = Vec::new();
    push_str(&mut forbidden_paths, "legal");
    push_str(&mut forbidden_paths, "policy");
    push_str(&mut forbidden_paths, "privacy");
    push_str(&mut forbidden_paths, "guidelines");
    push_str(&mut forbidden_paths, "support");
    proof {
        assert(forbidden_paths.deep_view() =~= default_paths());
    }
    Config { forbidden_hosts, forbidden_paths, count_words }
}

} // verus!
