//! Which addresses a crawl may start from, and how the address of a page is
//! made from the site's.

use crate::text::starts_with;
use vstd::prelude::*;
use vstd::std_specs::iter::IteratorSpec;
use vstd::string::{StrSliceExecFns, StringExecFns};

verus! {

/// The only scheme a crawl accepts.
pub open spec fn scheme() -> Seq<char> {
    "https://"@
}

/// The characters a site's name is made of: small letters, dot and hyphen.
pub open spec fn is_authority_char(c: char) -> bool {
    ('a' <= c && c <= 'z') || c == '.' || c == '-'
}

/// An address without the one slash that may close it.
pub open spec fn without_closing_slash(url: Seq<char>) -> Seq<char> {
    if url.len() > 0 && url.last() == '/' {
        url.drop_last()
    } else {
        url
    }
}

/// A site's address in its normal form: the scheme, then a name of one
/// character or more. No slash closes it, and it has no port, path or query.
pub open spec fn is_host(host: Seq<char>) -> bool {
    &&& scheme().is_prefix_of(host)
    &&& host.len() > scheme().len()
    &&& forall|i: int| scheme().len() <= i < host.len() ==> is_authority_char(#[trigger] host[i])
}

/// The addresses a crawl may start from: a site's address, closed by a
/// slash or not.
pub open spec fn is_root_url(url: Seq<char>) -> bool {
    is_host(without_closing_slash(url))
}

/// A site's name: one character or more, each of them a small letter, a dot
/// or a hyphen.
pub open spec fn is_site_name(name: Seq<char>) -> bool {
    &&& name.len() > 0
    &&& forall|i: int| 0 <= i < name.len() ==> is_authority_char(#[trigger] name[i])
}

/// A root address is the scheme, a site's name, and then a slash or
/// nothing; and every such text is a root address. Its normal form is the
/// scheme with the name.
pub proof fn lemma_root_url_shape(url: Seq<char>)
    ensures
        is_root_url(url) <==> exists|name: Seq<char>|
            #![trigger is_site_name(name)]
            is_site_name(name) && (url == scheme() + name || url == scheme() + name + seq!['/']),
        forall|name: Seq<char>|
            #![trigger is_site_name(name)]
            is_site_name(name) && (url == scheme() + name || url == scheme() + name + seq!['/'])
                ==> without_closing_slash(url) == scheme() + name,
{
    reveal_strlit("https://");
    let host = without_closing_slash(url);
    if is_root_url(url) {
        let name = host.skip(8);
        assert(is_site_name(name));
        assert(host =~= scheme() + name);
        if host != url {
            assert(url =~= scheme() + name + seq!['/']);
        }
    }
    assert forall|name: Seq<char>|
        #![trigger is_site_name(name)]
        is_site_name(name) && (url == scheme() + name || url == scheme() + name + seq![
            '/',
        ]) implies without_closing_slash(url) == scheme() + name && is_root_url(url) by {
        let plain = scheme() + name;
        assert forall|i: int| 8 <= i < plain.len() implies is_authority_char(
            #[trigger] plain[i],
        ) by {
            assert(plain[i] == name[i - 8]);
        }
    }
}

/// A site's address in its normal form is a root address, and its own
/// normal form.
pub proof fn lemma_host_is_normal(host: Seq<char>)
    requires
        is_host(host),
    ensures
        is_root_url(host),
        without_closing_slash(host) == host,
{
}

/// Tells whether a character may stand in a site's name.
pub fn in_authority(c: char) -> (yes: bool)
    ensures
        yes == is_authority_char(c),
{
    ('a' <= c && c <= 'z') || c == '.' || c == '-'
}

/// Checks the address a crawl is to start from. A root address gives the
/// site's address in its normal form; any other address gives nothing.
pub fn validate_host(url: &str) -> (host: Option<String>)
    ensures
        match host {
            Some(host) => is_root_url(url@) && host@ == without_closing_slash(url@),
            None => !is_root_url(url@),
        },
{
    let length = url.unicode_len();
    let end = if length > 0 && url.get_char(length - 1) == '/' {
        length - 1
    } else {
        length
    };
    let bare = url.substring_char(0, end);
    proof {
        reveal_strlit("https://");
    }
    if !starts_with(bare, "https://") || end <= 8 {
        return None;
    }
    let mut rest = bare.chars();
    let mut i: usize = 0;
    loop
        invariant
            0 <= i <= end,
            end == bare@.len(),
            rest.remaining() == bare@.skip(i as int),
            bare@ == without_closing_slash(url@),
            scheme().len() == 8,
            scheme().is_prefix_of(bare@),
            forall|j: int| 8 <= j < i ==> is_authority_char(#[trigger] bare@[j]),
        ensures
            i == end,
        decreases end - i,
    {
        match rest.next() {
            None => {
                break;
            },
            Some(c) => {
                if i >= 8 && !in_authority(c) {
                    return None;
                }
                i += 1;
            },
        }
    }
    Some(String::from_str(bare))
}

/// The address of a page: the site's address with the page's path behind
/// it, joined as they are. Nothing is put between them, and nothing in
/// the path is changed.
pub fn resolve(host: &str, path: &str) -> (url: String)
    ensures
        url@ == host@ + path@,
{
    let mut url = String::from_str(host);
    url.append(path);
    url
}

} // verus!
