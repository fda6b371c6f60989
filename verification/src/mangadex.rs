//! URL routing of the vendor-API scraper: which URLs it accepts and how
//! manga and chapter identifiers are read out of a URL path. The vendor
//! client itself lives with the driver; only these decisions are here.

use vstd::prelude::*;
use crate::error::ScrapeError;
use crate::outside::{url_host_of, url_host, url_path_of, url_path, uuid_valid_of, uuid_valid};
use crate::strutil::{split_char_spec, split_on_char, to_chars, from_chars, chars_eq};

verus! {

/// The hostnames the vendor scraper answers for.
pub fn mangadex_hostnames() -> (r: Vec<String>)
    ensures
        r@.len() == 2,
        r@[0]@ == "api.mangadex.org"@,
        r@[1]@ == "mangadex.org"@,
{
    let mut v: Vec<String> = Vec::new();
    v.push(String::from_str("api.mangadex.org"));
    v.push(String::from_str("mangadex.org"));
    v
}

/// Whether the vendor scraper answers for this hostname.
pub fn mangadex_search_accepts(hostname: &str) -> (r: bool)
    ensures
        r == (hostname@ == "api.mangadex.org"@ || hostname@ == "mangadex.org"@),
{
    crate::strutil::str_eq(hostname, "api.mangadex.org") || crate::strutil::str_eq(
        hostname,
        "mangadex.org",
    )
}

/// Whether the vendor scraper accepts the URL: its host must be one of
/// the declared hostnames.
pub fn mangadex_accepts(url: &str) -> (r: bool)
    ensures
        r == match url_host_of(url@) {
            Some(h) => h == "api.mangadex.org"@ || h == "mangadex.org"@,
            None => false,
        },
{
    match url_host(url) {
        Some(h) => mangadex_search_accepts(h.as_str()),
        None => false,
    }
}

/// The identifier in a URL path whose first segment is as given and
/// whose second segment is a well-formed UUID.
pub open spec fn path_id_spec(url: Seq<char>, seg0_a: Seq<char>, seg0_b: Seq<char>) -> Option<
    Seq<char>,
> {
    match url_path_of(url) {
        None => None,
        Some(p) => {
            let q = if p.len() > 0 && p[0] == '/' {
                p.drop_first()
            } else {
                p
            };
            let segs = split_char_spec(q, '/');
            if segs.len() >= 2 && (segs[0] == seg0_a || segs[0] == seg0_b) && uuid_valid_of(
                segs[1],
            ) {
                Some(segs[1])
            } else {
                None
            }
        },
    }
}

/// Reads the manga identifier out of a `/title/...` or `/manga/...` URL.
pub fn mangadex_manga_id(url: &str) -> (r: Result<String, ScrapeError>)
    ensures
        match r {
            Ok(id) => path_id_spec(url@, "title"@, "manga"@) == Some(id@),
            Err(e) => path_id_spec(url@, "title"@, "manga"@) is None && (e
                is WebsiteNotSupported || e is UnknownError),
        },
{
    path_uuid_segment(url, "title", "manga")
}

/// Reads the chapter identifier out of a `/chapter/...` URL.
pub fn mangadex_chapter_id(url: &str) -> (r: Result<String, ScrapeError>)
    ensures
        match r {
            Ok(id) => path_id_spec(url@, "chapter"@, "chapter"@) == Some(id@),
            Err(e) => path_id_spec(url@, "chapter"@, "chapter"@) is None && (e
                is WebsiteNotSupported || e is UnknownError),
        },
{
    path_uuid_segment(url, "chapter", "chapter")
}

/// Shared segment walk of the two identifier readers.
fn path_uuid_segment(url: &str, seg0_a: &str, seg0_b: &str) -> (r: Result<String, ScrapeError>)
    ensures
        match r {
            Ok(id) => path_id_spec(url@, seg0_a@, seg0_b@) == Some(id@),
            Err(e) => path_id_spec(url@, seg0_a@, seg0_b@) is None && (e is WebsiteNotSupported
                || e is UnknownError),
        },
{
    let p = match url_path(url) {
        Some(p) => p,
        None => {
            return Err(ScrapeError::WebsiteNotSupported(url.to_owned()));
        },
    };
    let pc = to_chars(p.as_str());
    let qc: Vec<char> = if pc.len() > 0 && pc[0] == '/' {
        let mut q: Vec<char> = Vec::new();
        let mut i: usize = 1;
        while i < pc.len()
            invariant
                1 <= i <= pc@.len(),
                q@ == pc@.subrange(1, i as int),
            decreases pc@.len() - i,
        {
            q.push(pc[i]);
            i = i + 1;
            proof {
                assert(q@ =~= pc@.subrange(1, i as int));
            }
        }
        proof {
            assert(q@ =~= pc@.drop_first());
        }
        q
    } else {
        pc
    };
    let segs = split_on_char(&qc, '/');
    let ghost sv = split_char_spec(qc@, '/');
    if segs.len() < 2 {
        return Err(ScrapeError::WebsiteNotSupported(url.to_owned()));
    }
    proof {
        assert(segs@.map_values(|x: Vec<char>| x@)[0] == sv[0]);
        assert(segs@.map_values(|x: Vec<char>| x@)[1] == sv[1]);
    }
    let first_ok = chars_eq(&segs[0], &to_chars(seg0_a)) || chars_eq(&segs[0], &to_chars(seg0_b));
    if !first_ok {
        return Err(ScrapeError::WebsiteNotSupported(url.to_owned()));
    }
    let id = from_chars(&segs[1]);
    if uuid_valid(id.as_str()) {
        Ok(id)
    } else {
        Err(ScrapeError::UnknownError(String::from_str("the identifier is not a well-formed uuid")))
    }
}

} // verus!
