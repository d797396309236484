//! Recognises the link shapes of the image hosts and rewrites each to the
//! address of the image itself.

use vstd::prelude::*;
use vstd::string::{StrSliceExecFns, StringExecFns};
use crate::text::{after_last, has_prefix, join, skip_chars, tail_after_last};

verus! {

/// Links below this prefix already name an image.
pub open spec fn reddit_image_prefix() -> Seq<char> {
    "https://i.redd.it/"@
}

/// Links on this host already name an image.
pub open spec fn imgur_image_prefix() -> Seq<char> {
    "https://i.imgur.com"@
}

/// Links on this host lead to a gallery page, not to an image.
pub open spec fn imgur_page_prefix() -> Seq<char> {
    "https://imgur.com"@
}

/// `href` is an address on `host`, which is given with its scheme: `href`
/// begins with `host` and the host ends there, so that either `href` ends
/// too or its path begins with `/`. A longer host that only begins like
/// `host` is another host.
pub open spec fn on_host(href: Seq<char>, host: Seq<char>) -> bool {
    host.is_prefix_of(href) && (href.len() == host.len() || href[host.len() as int] == '/')
}

/// The address of the image that `href` leads to, where `href` has one of
/// the recognised shapes. A link to an image host stays as it is; a link to
/// the gallery host keeps what follows the host and moves to the image
/// host, with `.jpg` appended. A link to any other host has no image.
pub open spec fn image_address(href: Seq<char>) -> Option<Seq<char>> {
    if reddit_image_prefix().is_prefix_of(href) || on_host(href, imgur_image_prefix()) {
        Some(href)
    } else if on_host(href, imgur_page_prefix()) {
        Some(imgur_image_prefix() + href.skip(imgur_page_prefix().len() as int) + ".jpg"@)
    } else {
        None
    }
}

/// Only links on the three hosts have an image: an address is found exactly
/// for a link below the reddit image prefix, on the imgur image host or on
/// the imgur gallery host, and it stays on an image host.
pub proof fn lemma_only_known_hosts_match(href: Seq<char>)
    ensures
        image_address(href) is Some <==> reddit_image_prefix().is_prefix_of(href) || on_host(
            href,
            imgur_image_prefix(),
        ) || on_host(href, imgur_page_prefix()),
        image_address(href) matches Some(address) ==> address == href
            || imgur_image_prefix().is_prefix_of(address),
{
    if image_address(href) is Some && image_address(href)->0 != href {
        let address = image_address(href)->0;
        let host = imgur_image_prefix();
        assert(address.subrange(0, host.len() as int) =~= host);
    }
}

/// The view of an optional string.
pub open spec fn text_of(s: Option<String>) -> Option<Seq<char>> {
    match s {
        Some(s) => Some(s@),
        None => None,
    }
}

/// Tells whether `href` is an address on `host`.
pub fn is_on_host(href: &str, host: &str) -> (r: bool)
    ensures
        r == on_host(href@, host@),
{
    if !has_prefix(href, host) {
        return false;
    }
    let host_len: usize = host.unicode_len();
    href.unicode_len() == host_len || href.get_char(host_len) == '/'
}

/// Maps a raw `href` to the address of an image, or to `None` where the
/// link has none of the recognised shapes.
pub fn normalize_url(href: &str) -> (r: Option<String>)
    ensures
        text_of(r) == image_address(href@),
{
    if has_prefix(href, "https://i.redd.it/") || is_on_host(href, "https://i.imgur.com") {
        Some(String::from_str(href))
    } else if is_on_host(href, "https://imgur.com") {
        let host_len: usize = "https://imgur.com".unicode_len();
        let path = skip_chars(href, host_len);
        let mut out = join("https://i.imgur.com", path);
        out.append(".jpg");
        Some(out)
    } else {
        None
    }
}

/// The name under which the image at `url` is stored: the last segment of
/// its path.
pub open spec fn file_name_of(url: Seq<char>) -> Seq<char> {
    after_last(url, '/')
}

/// The last path segment of `url`.
pub fn file_name(url: &str) -> (r: String)
    ensures
        r@ == file_name_of(url@),
        forall|i: int| 0 <= i < r@.len() ==> r@[i] != '/',
{
    String::from_str(tail_after_last(url, '/'))
}

/// The path of the file `name` below the directory `dir`. An empty `dir`
/// stands for the current directory, `.`, never for the root.
pub open spec fn path_below(dir: Seq<char>, name: Seq<char>) -> Seq<char> {
    let base = if dir.len() == 0 {
        "."@
    } else {
        dir
    };
    base + "/"@ + name
}

/// Where the image at `url` is stored below the directory `dir`.
pub fn destination_path(dir: &str, url: &str) -> (r: String)
    ensures
        r@ == path_below(dir@, file_name_of(url@)),
{
    let base = if dir.unicode_len() == 0 {
        "."
    } else {
        dir
    };
    let mut out = join(base, "/");
    out.append(tail_after_last(url, '/'));
    out
}

} // verus!
