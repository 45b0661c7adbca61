//! DayZ news articles from dayz.com.
//!
//! The request is made by the application; what an article shows and how a
//! response is judged are decided here.

use vstd::prelude::*;
use crate::error::Error;
use crate::text::{
    byte_prefix, byte_prefix_chars, contains, contains_chars, from_chars, push_all, push_str,
    replace_text, replace_text_chars, to_chars,
};

verus! {

/// Time-to-live of the news cache in seconds (one hour).
pub const NEWS_CACHE_TTL_SECS: u64 = 3600;

/// The dayz.com news API endpoint (without query string).
pub const NEWS_API_URL: &'static str = "https://dayz.com/api/article";

/// The category of an article.
#[derive(Debug)]
pub struct ArticleCategory {
    pub name: String,
    pub slug: String,
}

/// The author of an article.
#[derive(Debug)]
pub struct ArticleAuthor {
    pub name: String,
    pub role: Option<String>,
}

/// A single DayZ news article.
#[derive(Debug)]
pub struct Article {
    pub id: u64,
    pub title: String,
    pub slug: String,
    pub excerpt: Option<String>,
    pub content: Option<String>,
    pub version: Option<String>,
    /// Hero image file name, served from `/app-static/uploads/article/{id}/`.
    pub image: Option<String>,
    /// ISO-8601 publish date from the API, e.g. `2026-02-05T00:30:00.000Z`.
    pub published_at: Option<String>,
    pub category: Option<ArticleCategory>,
    pub author: Option<ArticleAuthor>,
}

/// Response envelope of the news API.
#[derive(Debug)]
pub struct NewsResponse {
    pub rows: Vec<Article>,
}

/// The first ten bytes of the publish date (`YYYY-MM-DD`), or empty text
/// when there is no date or it is shorter.
pub open spec fn date_spec(published_at: Option<String>) -> Seq<char> {
    match published_at {
        Some(s) => match byte_prefix(s@, 10) {
            Some(p) => p,
            None => Seq::empty(),
        },
        None => Seq::empty(),
    }
}

/// The article's page: `https://dayz.com/article/<category>/<slug>`, with
/// category `news` when there is none and spaces in the slug as `%20`.
pub open spec fn url_spec(category: Option<ArticleCategory>, slug: Seq<char>) -> Seq<char> {
    let cat = match category {
        Some(c) => c.slug@,
        None => "news"@,
    };
    "https://dayz.com/article/"@ + cat + seq!['/'] + replace_text(slug, seq![' '], "%20"@)
}

impl Article {
    /// The date portion of `published_at` as `YYYY-MM-DD`, or empty text.
    pub fn date(&self) -> (r: &str)
        ensures
            r@ == date_spec(self.published_at),
    {
        proof {
            reveal_strlit("");
        }
        match &self.published_at {
            Some(s) => {
                let v = to_chars(s.as_str());
                match byte_prefix_chars(&v, 10) {
                    Some(p) => s.as_str().substring_char(0, p.len()),
                    None => "",
                }
            },
            None => "",
        }
    }

    /// The full URL of the article on dayz.com.
    pub fn url(&self) -> (r: String)
        ensures
            r@ == url_spec(self.category, self.slug@),
    {
        let mut v = to_chars("https://dayz.com/article/");
        match &self.category {
            Some(c) => push_str(&mut v, c.slug.as_str()),
            None => push_str(&mut v, "news"),
        }
        v.push('/');
        let mut space: Vec<char> = Vec::new();
        space.push(' ');
        let slug = replace_text_chars(&to_chars(self.slug.as_str()), &space, &to_chars("%20"));
        push_all(&mut v, &slug);
        from_chars(&v)
    }
}

/// The start of a body that is looked at: its first 2048 bytes, or all of
/// it when it is shorter or byte 2048 falls inside a character.
pub open spec fn body_head(body: Seq<char>) -> Seq<char> {
    match byte_prefix(body, 2048) {
        Some(p) => p,
        None => body,
    }
}

/// Whether a body looks like a Cloudflare challenge page.
pub open spec fn cloudflare_spec(body: Seq<char>) -> bool {
    let head = body_head(body);
    contains(head, "Just a moment"@) || contains(head, "challenges.cloudflare.com"@) || contains(
        head,
        "cf-browser-verification"@,
    ) || contains(head, "cf_chl_"@)
}

/// Heuristic: does this response body look like a Cloudflare bot-protection
/// challenge page rather than the JSON payload?
pub fn looks_like_cloudflare_challenge(body: &str) -> (r: bool)
    ensures
        r == cloudflare_spec(body@),
{
    let v = to_chars(body);
    let head = match byte_prefix_chars(&v, 2048) {
        Some(p) => p,
        None => v,
    };
    contains_chars(&head, &to_chars("Just a moment")) || contains_chars(
        &head,
        &to_chars("challenges.cloudflare.com"),
    ) || contains_chars(&head, &to_chars("cf-browser-verification")) || contains_chars(
        &head,
        &to_chars("cf_chl_"),
    )
}

/// The outcome of a news request that answered with `status` and `body`,
/// given what parsing the body as the API's JSON gave: the articles, or, when
/// parsing failed, a Cloudflare challenge when the status is 403 or 503 or
/// the body looks like one, else the parse error.
pub fn news_result(status: u16, body: &str, parsed: Result<Vec<Article>, Error>) -> (r: Result<Vec<Article>, Error>)
    ensures
        match parsed {
            Ok(rows) => r == Ok::<Vec<Article>, Error>(rows),
            Err(e) => if status == 403 || status == 503 || cloudflare_spec(body@) {
                r == Err::<Vec<Article>, Error>(Error::CloudflareChallenge)
            } else {
                r == Err::<Vec<Article>, Error>(e)
            },
        },
{
    match parsed {
        Ok(rows) => Ok(rows),
        Err(e) => {
            if status == 403 || status == 503 || looks_like_cloudflare_challenge(body) {
                Err(Error::CloudflareChallenge)
            } else {
                Err(e)
            }
        },
    }
}

} // verus!
