//! The patterns that recognise the links to rewrite, and the search engine behind them.
//!
//! Every pattern ends in the same tail, which takes along whatever looks like
//! a list of `key=value` parameters. All but the first start with the same
//! guard: a scheme, or no letter directly before the host, so that
//! `xbilibili.com` is left alone. The first takes the guard where it finds
//! it; the rule that uses it checks the guard itself, see [`crate::guard`].

use crate::splice::Span;
use vstd::prelude::*;

verus! {

/// Short links of bilibili.
pub const BILI_SHORT: &'static str =
    r"((https?://|(?<![a-zA-Z])|^)?(b23\.tv|bili2233\.cn)/[0-9a-zA-Z]+/?)\??(?:&?[^=&]*=[^=&]*)*";

/// Short links of Twitter.
pub const TWITTER_SHORT: &'static str =
    r"((https?://|(?<![a-zA-Z])|^)t\.co/[0-9a-zA-Z]+/?)\??(?:&?[^=&]*=[^=&]*)*";

/// Share links of TikTok.
pub const TIKTOK_SHARE: &'static str =
    r"((https?://|(?<![a-zA-Z])|^)(vm|vt|www)\.tiktok\.com/(t/)?[0-9a-zA-Z]+/?)\??(?:&?[^=&]*=[^=&]*)*";

/// Videos on YouTube.
pub const YOUTUBE: &'static str =
    r"(https?://|(?<![a-zA-Z])|^)(www\.)?(youtube\.com|youtu\.be)/(watch|[a-zA-Z_]+)\??(?:&?[^=&]*=[^=&]*)*";

/// Videos on bilibili.
pub const BILI_VIDEO: &'static str =
    r"(?P<url>(https?://|(?<![a-zA-Z])|^)(www\.)?bilibili\.com/video/[0-9a-zA-Z]+/?)\??(?:&?[^=&]*=[^=&]*)*";

/// Articles on bilibili in their mobile form.
pub const BILI_ARTICLE: &'static str =
    r"(https?://|(?<![a-zA-Z])|^)(www\.)?bilibili\.com/read/mobile/(?P<cvid>[0-9]+)\??(?:&?[^=&]*=[^=&]*)*";

/// What an article on bilibili is rewritten to.
pub const BILI_ARTICLE_TO: &'static str = "https://www.bilibili.com/read/cv$cvid";

/// Posts on bilibili.
pub const BILI_OPUS: &'static str =
    r"(https?://|(?<![a-zA-Z])|^)((www|m)\.)?bilibili\.com/opus/(?P<opus_id>[0-9]+)\??(?:&?[^=&]*=[^=&]*)*";

/// What a post on bilibili is rewritten to.
pub const BILI_OPUS_TO: &'static str = "https://t.bilibili.com/$opus_id";

/// Statuses on Twitter and on the hosts that embed it.
pub const TWITTER: &'static str =
    r"(https?://|(?<![a-zA-Z])|^)(www|c\.)?(vx)?twitter\.com(?P<path>/[a-zA-Z0-9_]+/status/[0-9]+)\??(?:&?[^=&]*=[^=&]*)*";

/// Statuses on X and on the hosts that embed it.
pub const TWITTER_X: &'static str =
    r"(https?://|(?<![a-zA-Z])|^)(www\.)?(fixup)?x\.com(?P<path>/[a-zA-Z0-9_]+/status/[0-9]+)\??(?:&?[^=&]*=[^=&]*)*";

/// What a status is rewritten to: the one host that embeds it, and its path.
pub const STATUS_TO: &'static str = "https://c.vxtwitter.com$path";

/// Product pages on Amazon.
pub const AMAZON: &'static str =
    r"(?P<domain>(https?://|(?<![a-zA-Z])|^)(www\.)?amazon\.(com|co(\.[a-zA-Z]+)?)/)[a-zA-Z0-9%-]+/(?P<path>dp/[0-9a-zA-Z]+/?)\??(?:&?[^=&]*=[^=&]*)*";

/// What a product page on Amazon is rewritten to.
pub const AMAZON_TO: &'static str = "$domain$path";

/// Searches on Amazon.
pub const AMAZON_SEARCH: &'static str =
    r"(?P<domain>(https?://|(?<![a-zA-Z])|^)(www\.)?amazon\.(com|co(\.[a-zA-Z]+)?)/s)(?P<keyword>\?k=[a-zA-Z0-9%+-]+)(?:&?[^=&]*=[^=&]*)*";

/// What a search on Amazon is rewritten to.
pub const AMAZON_SEARCH_TO: &'static str = "$domain$keyword";

/// Articles on Weixin.
pub const WEIXIN: &'static str =
    r"(https?://|(?<![a-zA-Z])|^)mp\.weixin\.qq\.com/s\??(?:&?[^=&]*=[^=&]*)*";

/// Product pages on JD.
pub const JD: &'static str =
    r"(?P<url>(https?://|(?<![a-zA-Z])|^)item\.(m\.)?jd\.com/product/[0-9]+\.html)\??(?:&?[^=&]*=[^=&]*)*";

/// What a product page on JD is rewritten to.
pub const JD_TO: &'static str = "$url";

/// What the engine finds of `pattern` in `text`: the successive matches as
/// it reports them, each as its range of byte offsets into `text`. The list
/// ends where the engine gives up on the search, and is empty for a pattern
/// that the engine does not accept.
pub uninterp spec fn regex_spans(pattern: Seq<char>, text: Seq<char>) -> Seq<Span>;

/// The limit that lets every match be replaced.
pub const EVERY_MATCH: usize = 0;

/// What the engine makes of `text` when the first `limit` matches of
/// `pattern`, or every match where `limit` is zero, give way to `template`,
/// in which `$name` stands for what the group `name` captured: `None` where
/// the engine does not accept the pattern or gives up on the search.
pub uninterp spec fn regex_replaced(
    pattern: Seq<char>,
    text: Seq<char>,
    limit: nat,
    template: Seq<char>,
) -> Option<Seq<char>>;

/// Searches `text` with `fancy_regex::Regex::find_iter`, after compiling
/// `pattern` with `Regex::new`. Trusted: the result is what the engine
/// returns, named [`regex_spans`]; nothing is claimed about where the spans lie.
#[verifier::external_body]
pub(crate) fn find_spans(pattern: &str, text: &str) -> (spans: Vec<Span>)
    ensures
        spans@ == regex_spans(pattern@, text@),
{
    match fancy_regex::Regex::new(pattern) {
        Ok(regex) => regex
            .find_iter(text)
            .map_while(|found| found.ok())
            .map(|found| Span { start: found.start(), end: found.end() })
            .collect(),
        Err(_) => Vec::new(),
    }
}

/// Replaces matches with `fancy_regex::Regex::try_replacen`, after compiling
/// `pattern` with `Regex::new`. Trusted: the result is what the engine
/// returns, named [`regex_replaced`], with `None` for either error; where no
/// match is found, the text comes back unchanged.
#[verifier::external_body]
pub(crate) fn replace_matches(pattern: &str, text: &str, limit: usize, template: &str) -> (out:
    Option<String>)
    ensures
        out.deep_view() == regex_replaced(pattern@, text@, limit as nat, template@),
        regex_spans(pattern@, text@).len() == 0 && out is Some ==> out.deep_view() == Some(text@),
{
    let regex = fancy_regex::Regex::new(pattern).ok()?;
    regex.try_replacen(text, limit, template).ok().map(|replaced| replaced.into_owned())
}

} // verus!
