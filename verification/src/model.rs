//! Output records produced by the scrapers, and the flat legacy
//! configuration shape consumed by the single-page extractor.

use vstd::prelude::*;

verus! {

/// A chapter number: a whole part and optional fractional digits, so that
/// sub-chapters such as "12.5" keep their exact decimal form.
#[derive(Debug, PartialEq, Eq)]
pub struct ChapterNumber {
    /// Digits before the decimal point.
    pub whole: u64,
    /// Digits after the decimal point, each 0 through 9, most significant first.
    pub frac: Vec<u8>,
}

impl ChapterNumber {
    /// Every fractional entry is one decimal digit.
    pub open spec fn wf(&self) -> bool {
        forall|i: int| 0 <= i < self.frac@.len() ==> self.frac@[i] < 10
    }

    /// Field-for-field agreement; two numbers agreeing this way render
    /// and order identically.
    pub open spec fn same_as(self, o: ChapterNumber) -> bool {
        self.whole == o.whole && self.frac@ == o.frac@
    }

    /// A whole chapter number, as assigned by position fallback.
    pub fn from_whole(whole: u64) -> (r: ChapterNumber)
        ensures
            r.whole == whole,
            r.frac@.len() == 0,
            r.wf(),
    {
        ChapterNumber { whole, frac: Vec::new() }
    }
}

/// One chapter of a manga. The URL must be unique within one manga; the
/// number is the ordering key and need not be unique.
#[derive(Debug, PartialEq)]
pub struct Chapter {
    /// Absolute URL of the chapter page.
    pub url: String,
    /// Ordering key, parsed from the page or assigned by position.
    pub number: ChapterNumber,
    pub title: String,
    /// Publication instant in milliseconds since the Unix epoch, when known.
    pub date: Option<i64>,
}

impl Clone for ChapterNumber {
    /// Clones the number, field for field.
    fn clone(&self) -> (r: ChapterNumber)
        ensures
            r.same_as(*self),
    {
        let mut frac: Vec<u8> = Vec::new();
        let mut i: usize = 0;
        while i < self.frac.len()
            invariant
                i <= self.frac@.len(),
                frac@ == self.frac@.subrange(0, i as int),
            decreases self.frac@.len() - i,
        {
            frac.push(self.frac[i]);
            i = i + 1;
            proof {
                assert(frac@ =~= self.frac@.subrange(0, i as int));
            }
        }
        proof {
            assert(frac@ =~= self.frac@);
        }
        ChapterNumber { whole: self.whole, frac }
    }
}

impl Chapter {
    /// Field-for-field agreement of two chapters.
    pub open spec fn same_as(self, o: Chapter) -> bool {
        self.url == o.url && self.number.same_as(o.number) && self.title == o.title && self.date
            == o.date
    }
}

impl Clone for Chapter {
    /// Clones the chapter, field for field.
    fn clone(&self) -> (r: Chapter)
        ensures
            r.same_as(*self),
    {
        Chapter {
            url: self.url.clone(),
            number: self.number.clone(),
            title: self.title.clone(),
            date: self.date,
        }
    }
}

/// A fully populated manga record. Never handed out partially filled:
/// a build that misses a required field is a terminal failure.
#[derive(Debug, Clone, PartialEq)]
pub struct Manga {
    /// Absolute URL of the manga page.
    pub url: String,
    pub title: String,
    pub description: String,
    pub cover_url: Option<String>,
    pub status: Option<String>,
    pub is_ongoing: bool,
    pub authors: Vec<String>,
    pub genres: Vec<String>,
    pub alternative_titles: Vec<String>,
    pub chapters: Vec<Chapter>,
}

/// One search hit.
#[derive(Debug, Clone, PartialEq)]
pub struct SearchManga {
    /// Absolute URL of the manga page.
    pub url: String,
    pub title: String,
    pub cover_url: Option<String>,
    /// Posting instant in milliseconds since the Unix epoch, when known.
    pub posted: Option<i64>,
}

/// Flat, single-site configuration for the legacy single-page extractor:
/// one CSS-like selector string per field.
#[derive(Debug, Clone, PartialEq)]
pub struct MangaConfig {
    pub title_selector: String,
    pub description_selector: String,
    pub cover_url_selector: String,
    pub status_selector: String,
    pub authors_selector: String,
    pub genres_selector: String,
    pub alternative_titles_selector: String,
    pub chapters_selector: String,
    pub chapter_number_selector: String,
    pub chapter_title_selector: String,
    pub chapter_date_selector: String,
    pub chapter_href_selector: String,
    pub date_formats: Vec<String>,
    pub chapter_external_selectors: Vec<ChapterExternalSelector>,
}

/// Redirection rule of the legacy extractor: locate an embedded identifier,
/// capture it, and substitute it into a secondary URL template.
#[derive(Debug, Clone, PartialEq)]
pub struct ChapterExternalSelector {
    /// Selector locating the node whose text embeds the identifier.
    pub id: String,
    /// Pattern whose first capture group is the identifier.
    pub regex: String,
    /// URL template containing an `{id}` placeholder.
    pub url: String,
}

} // verus!
