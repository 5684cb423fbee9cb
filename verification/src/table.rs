//! The rule table: every rewrite rule, with the pattern that finds its links
//! and what it does with them, in the order in which the rules run. The
//! order matters: a later rule sees what an earlier one has written, so the
//! target of a short link is still stripped of its trackers.

use crate::link::{clear_query, keep_only, kept_only, key_set, query_cleared};
use crate::pattern::{
    AMAZON, AMAZON_SEARCH, AMAZON_SEARCH_TO, AMAZON_TO, BILI_ARTICLE, BILI_ARTICLE_TO, BILI_OPUS,
    BILI_OPUS_TO, BILI_SHORT, BILI_VIDEO, JD, JD_TO, STATUS_TO, TIKTOK_SHARE, TWITTER,
    TWITTER_SHORT, TWITTER_X, WEIXIN, YOUTUBE,
};
use vstd::prelude::*;
use vstd::string::*;

verus! {

/// The families of short links.
#[derive(Clone, Copy, Debug, PartialEq, Eq, Structural)]
pub enum ShortLink {
    /// `b23.tv` and `bili2233.cn`: the target keeps the keys of a video.
    Bili,
    /// `t.co`: the target is taken as it is.
    Twitter,
    /// `vm.tiktok.com` and its like: the target loses its query.
    Tiktok,
}

impl ShortLink {
    /// What stands for a link of this family once it resolved to `target`:
    /// `None`, which leaves the link as it is, where `target` cannot be read.
    pub open spec fn spec_landing(self, target: Seq<char>) -> Option<Seq<char>> {
        match self {
            ShortLink::Bili => kept_only(target, Keys::Bili.set()),
            ShortLink::Twitter => Some(target),
            ShortLink::Tiktok => query_cleared(target),
        }
    }

    /// What stands for a link of this family once it resolved to `target`.
    pub fn landing(self, target: &str) -> (with: Option<String>)
        ensures
            with.deep_view() == self.spec_landing(target@),
    {
        match self {
            ShortLink::Bili => Keys::Bili.trim(target),
            ShortLink::Twitter => Some(target.to_owned()),
            ShortLink::Tiktok => clear_query(target),
        }
    }
}

/// The keys that a rule keeps in the query of its links.
#[derive(Clone, Copy, Debug, PartialEq, Eq, Structural)]
pub enum Keys {
    /// For a video on bilibili: the part and the time.
    Bili,
    /// For a video on YouTube: the video, the list, the place in it, the time.
    Youtube,
    /// For an article on Weixin: the four keys that name it.
    Weixin,
}

impl Keys {
    /// The keys as a set.
    pub open spec fn set(self) -> Set<Seq<char>> {
        match self {
            Keys::Bili => set!["p"@, "t"@],
            Keys::Youtube => set!["v"@, "list"@, "index"@, "t"@],
            Keys::Weixin => set!["__biz"@, "mid"@, "idx"@, "sn"@],
        }
    }

    /// The keys by name.
    pub fn names(self) -> (names: Vec<&'static str>)
        ensures
            key_set(names@) == self.set(),
    {
        match self {
            Keys::Bili => vec!["p", "t"],
            Keys::Youtube => vec!["v", "list", "index", "t"],
            Keys::Weixin => vec!["__biz", "mid", "idx", "sn"],
        }
    }

    /// Strips the query of `url` down to these keys. Returns `None` for a
    /// text that cannot be read as a URL.
    pub fn trim(self, url: &str) -> (out: Option<String>)
        ensures
            out.deep_view() == kept_only(url@, self.set()),
    {
        let names = self.names();
        keep_only(url, names.as_slice())
    }
}

/// What a rule does with the links that its pattern finds.
#[derive(Clone, Copy, Debug, PartialEq, Eq)]
pub enum Action {
    /// Asks for the target of the link, one hop on, and puts in its place
    /// what the family makes of the target.
    Resolve(ShortLink),
    /// Strips the query of the link down to the keys.
    Trim(Keys),
    /// Rebuilds the link after the template, in which `$name` stands for
    /// what the group `name` of the pattern captured.
    Rebuild(&'static str),
}

/// A rewrite rule: the pattern that finds its links, and what it does with them.
#[derive(Clone, Copy, Debug, PartialEq, Eq)]
pub struct Rule {
    pub pattern: &'static str,
    pub action: Action,
}

/// The number of rules.
pub const RULES: usize = 13;

/// The rule at each place of the table. Short links come first, each
/// family by itself; then videos, articles and posts, statuses, marketplace
/// pages and searches, newsletter articles, product pages.
pub open spec fn rule_at(index: int) -> Rule {
    if index == 0 {
        Rule { pattern: BILI_SHORT, action: Action::Resolve(ShortLink::Bili) }
    } else if index == 1 {
        Rule { pattern: TWITTER_SHORT, action: Action::Resolve(ShortLink::Twitter) }
    } else if index == 2 {
        Rule { pattern: TIKTOK_SHARE, action: Action::Resolve(ShortLink::Tiktok) }
    } else if index == 3 {
        Rule { pattern: YOUTUBE, action: Action::Trim(Keys::Youtube) }
    } else if index == 4 {
        Rule { pattern: BILI_VIDEO, action: Action::Trim(Keys::Bili) }
    } else if index == 5 {
        Rule { pattern: BILI_ARTICLE, action: Action::Rebuild(BILI_ARTICLE_TO) }
    } else if index == 6 {
        Rule { pattern: BILI_OPUS, action: Action::Rebuild(BILI_OPUS_TO) }
    } else if index == 7 {
        Rule { pattern: TWITTER, action: Action::Rebuild(STATUS_TO) }
    } else if index == 8 {
        Rule { pattern: TWITTER_X, action: Action::Rebuild(STATUS_TO) }
    } else if index == 9 {
        Rule { pattern: AMAZON, action: Action::Rebuild(AMAZON_TO) }
    } else if index == 10 {
        Rule { pattern: AMAZON_SEARCH, action: Action::Rebuild(AMAZON_SEARCH_TO) }
    } else if index == 11 {
        Rule { pattern: WEIXIN, action: Action::Trim(Keys::Weixin) }
    } else {
        Rule { pattern: JD, action: Action::Rebuild(JD_TO) }
    }
}

/// The rule at a place of the table.
pub fn rule(index: usize) -> (rule: Rule)
    requires
        index < RULES,
    ensures
        rule == rule_at(index as int),
{
    if index == 0 {
        Rule { pattern: BILI_SHORT, action: Action::Resolve(ShortLink::Bili) }
    } else if index == 1 {
        Rule { pattern: TWITTER_SHORT, action: Action::Resolve(ShortLink::Twitter) }
    } else if index == 2 {
        Rule { pattern: TIKTOK_SHARE, action: Action::Resolve(ShortLink::Tiktok) }
    } else if index == 3 {
        Rule { pattern: YOUTUBE, action: Action::Trim(Keys::Youtube) }
    } else if index == 4 {
        Rule { pattern: BILI_VIDEO, action: Action::Trim(Keys::Bili) }
    } else if index == 5 {
        Rule { pattern: BILI_ARTICLE, action: Action::Rebuild(BILI_ARTICLE_TO) }
    } else if index == 6 {
        Rule { pattern: BILI_OPUS, action: Action::Rebuild(BILI_OPUS_TO) }
    } else if index == 7 {
        Rule { pattern: TWITTER, action: Action::Rebuild(STATUS_TO) }
    } else if index == 8 {
        Rule { pattern: TWITTER_X, action: Action::Rebuild(STATUS_TO) }
    } else if index == 9 {
        Rule { pattern: AMAZON, action: Action::Rebuild(AMAZON_TO) }
    } else if index == 10 {
        Rule { pattern: AMAZON_SEARCH, action: Action::Rebuild(AMAZON_SEARCH_TO) }
    } else if index == 11 {
        Rule { pattern: WEIXIN, action: Action::Trim(Keys::Weixin) }
    } else {
        Rule { pattern: JD, action: Action::Rebuild(JD_TO) }
    }
}

} // verus!
