//! Listing a subreddit: the endpoint, the parsed listing shape, and the
//! extension filter over the candidate URLs it carries.

use vstd::prelude::*;

use crate::extensions::ExtensionSet;
use crate::paths::{extension_spec, has_extension};
use crate::strutil::{decimal_digits, u16_to_string, views_of};

verus! {

/// The innermost listing record: one candidate URL.
pub struct Data2 {
    pub url: String,
}

/// One listing entry, wrapping its record.
pub struct Children {
    pub data: Data2,
}

/// The listing payload: the entries of one page.
pub struct Data {
    pub children: Vec<Children>,
}

/// A parsed listing document.
pub struct Root {
    pub data: Data,
}

/// Why fetching a collection's listing failed; any of these skips the whole
/// collection and nothing else.
#[derive(Debug)]
pub enum SubredditError {
    /// The request itself failed at the transport level.
    RequestFailed(String),
    /// The response body was not a well-formed listing.
    ParseFailed(String),
    /// The service answered with a non-2xx status.
    BadResponse(u16),
}

/// A named remote source of media listings.
pub struct Subreddit {
    pub name: String,
}

/// The success range of HTTP status codes.
pub open spec fn is_success_status(code: u16) -> bool {
    200 <= code < 300
}

/// Accept exactly the 2xx statuses; anything else is a `BadResponse`
/// carrying the offending code.
pub fn check_listing_status(code: u16) -> (r: Result<(), SubredditError>)
    ensures
        match r {
            Ok(_) => is_success_status(code),
            Err(e) => !is_success_status(code) && e == SubredditError::BadResponse(code),
        },
{
    if 200 <= code && code < 300 {
        Ok(())
    } else {
        Err(SubredditError::BadResponse(code))
    }
}

/// A candidate entry is kept exactly when its URL's final segment has an
/// extension and that extension is a key of the allowed set.
pub open spec fn keep_entry(url: Seq<char>, exts: ExtensionSet) -> bool {
    has_extension(url) && exts.contains_key_spec(extension_spec(url))
}

/// The candidate URLs that survive the extension filter, in listing order.
pub open spec fn kept_urls(urls: Seq<Seq<char>>, exts: ExtensionSet) -> Seq<Seq<char>>
    decreases urls.len(),
{
    if urls.len() == 0 {
        Seq::empty()
    } else {
        let rest = kept_urls(urls.drop_last(), exts);
        if keep_entry(urls.last(), exts) {
            rest.push(urls.last())
        } else {
            rest
        }
    }
}

/// Unfolding step for a growing prefix of the candidate list.
pub proof fn lemma_kept_urls_take_step(urls: Seq<Seq<char>>, exts: ExtensionSet, i: int)
    requires
        0 <= i < urls.len(),
    ensures
        kept_urls(urls.take(i + 1), exts) == if keep_entry(urls[i], exts) {
            kept_urls(urls.take(i), exts).push(urls[i])
        } else {
            kept_urls(urls.take(i), exts)
        },
{
    let t = urls.take(i + 1);
    assert(t.last() == urls[i]);
    assert(t.drop_last() =~= urls.take(i));
}

/// Extension filter correctness: every survivor is a candidate whose
/// final-segment extension is an allowed key, every such candidate survives,
/// and a URL without an extension never survives.
pub proof fn lemma_extension_filter_correct(urls: Seq<Seq<char>>, exts: ExtensionSet)
    ensures
        forall|u: Seq<char>| #[trigger]
            kept_urls(urls, exts).contains(u) ==> urls.contains(u) && keep_entry(u, exts),
        forall|i: int|
            0 <= i < urls.len() && keep_entry(urls[i], exts) ==> kept_urls(urls, exts).contains(
                urls[i],
            ),
        forall|u: Seq<char>|
            !has_extension(u) ==> !(#[trigger] kept_urls(urls, exts).contains(u)),
    decreases urls.len(),
{
    if urls.len() == 0 {
    } else {
        let prefix = urls.drop_last();
        lemma_extension_filter_correct(prefix, exts);
        let rest = kept_urls(prefix, exts);
        assert forall|u: Seq<char>| #[trigger]
            kept_urls(urls, exts).contains(u) implies urls.contains(u) && keep_entry(
            u,
            exts,
        ) by {
            if keep_entry(urls.last(), exts) && u == urls.last() {
                assert(urls[urls.len() - 1] == u);
            } else {
                let k = choose|k: int|
                    0 <= k < kept_urls(urls, exts).len() && kept_urls(urls, exts)[k] == u;
                if k < rest.len() {
                    assert(rest.contains(u));
                    let j = choose|j: int| 0 <= j < prefix.len() && prefix[j] == u;
                    assert(urls[j] == u);
                } else {
                    assert(u == urls.last());
                    assert(urls[urls.len() - 1] == u);
                }
            }
        }
        assert forall|i: int|
            0 <= i < urls.len() && keep_entry(urls[i], exts) implies kept_urls(
            urls,
            exts,
        ).contains(urls[i]) by {
            if i == urls.len() - 1 {
                assert(kept_urls(urls, exts)[kept_urls(urls, exts).len() - 1] == urls[i]);
            } else {
                assert(prefix[i] == urls[i]);
                assert(rest.contains(urls[i]));
                let k = choose|k: int| 0 <= k < rest.len() && rest[k] == urls[i];
                assert(kept_urls(urls, exts)[k] == urls[i]);
            }
        }
    }
}

impl Root {
    /// The candidate URLs of this listing, in order.
    pub open spec fn urls_spec(&self) -> Seq<Seq<char>> {
        self.data.children@.map_values(|c: Children| c.data.url@)
    }

    /// Keep each entry's URL exactly when its extension is an allowed key;
    /// entries without an extension are dropped silently.
    pub fn image_file_urls(&self, file_ext: &ExtensionSet) -> (urls: Vec<String>)
        ensures
            views_of(urls@) == kept_urls(self.urls_spec(), *file_ext),
    {
        let ghost all = self.urls_spec();
        let mut out: Vec<String> = Vec::new();
        let mut i: usize = 0;
        proof {
            assert(all.take(0) =~= Seq::<Seq<char>>::empty());
            assert(views_of(out@) =~= kept_urls(all.take(0), *file_ext));
        }
        while i < self.data.children.len()
            invariant
                i <= self.data.children@.len(),
                all == self.urls_spec(),
                views_of(out@) == kept_urls(all.take(i as int), *file_ext),
            decreases self.data.children@.len() - i,
        {
            let u = &self.data.children[i].data.url;
            assert(all[i as int] == u@);
            let kept = match crate::paths::extension(u.as_str()) {
                Some(e) => file_ext.contains_key(e.as_str()),
                None => false,
            };
            proof {
                lemma_kept_urls_take_step(all, *file_ext, i as int);
            }
            if kept {
                out.push(u.clone());
                proof {
                    assert(views_of(out@) =~= kept_urls(all.take(i + 1 as int), *file_ext));
                }
            } else {
                proof {
                    assert(views_of(out@) =~= kept_urls(all.take(i + 1 as int), *file_ext));
                }
            }
            i = i + 1;
        }
        proof {
            assert(all.take(i as int) =~= all);
        }
        out
    }
}

impl Subreddit {
    /// The listing endpoint for this subreddit.
    pub fn listing_url(&self) -> (r: String)
        ensures
            r@ == "https://www.reddit.com/r/"@ + self.name@ + ".json"@,
    {
        String::from_str("https://www.reddit.com/r/").concat(self.name.as_str()).concat(".json")
    }
}

impl SubredditError {
    /// The error sink line for this failure.
    pub open spec fn describe_spec(&self) -> Seq<char> {
        match self {
            SubredditError::RequestFailed(cause) => "Request failed: "@ + cause@,
            SubredditError::ParseFailed(cause) => "Failed to parse response: "@ + cause@,
            SubredditError::BadResponse(code) => "Bad response: HTTP error: "@ + decimal_digits(
                *code as nat,
            ),
        }
    }

    /// Render this failure for the error sink.
    pub fn describe(&self) -> (r: String)
        ensures
            r@ == self.describe_spec(),
    {
        match self {
            SubredditError::RequestFailed(cause) => String::from_str(
                "Request failed: ",
            ).concat(cause.as_str()),
            SubredditError::ParseFailed(cause) => String::from_str(
                "Failed to parse response: ",
            ).concat(cause.as_str()),
            SubredditError::BadResponse(code) => String::from_str(
                "Bad response: HTTP error: ",
            ).concat(u16_to_string(*code).as_str()),
        }
    }
}

} // verus!
