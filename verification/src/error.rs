//! The error taxonomy threaded through every scraping operation.

use vstd::prelude::*;

verus! {

/// One typed error value per failure cause; aggregate failures carry one
/// entry per site configuration that was tried.
#[derive(Debug, PartialEq)]
pub enum ScrapeError {
    /// Network or timeout failure reported by the transport layer.
    TransportError(String),
    /// Filesystem failure while loading configurations.
    IoError(String),
    /// A configuration document could not be read into the model.
    ConfigDeserializeError(String),
    /// A required field could not be scraped from the page.
    WebScrapingError(String),
    /// A URL could not be parsed or resolved.
    NotAValidURL(String),
    /// A CSS-like selector expression is malformed.
    SelectorError(String),
    /// No configuration accepted the URL.
    WebsiteNotSupported(String),
    /// No configuration declares search support for these hostnames.
    SearchNotSupported(Vec<String>),
    /// Every accepted configuration failed; one entry per configuration name.
    MultipleScrapingErrors(Vec<(String, ScrapeError)>),
    /// The page answered with an anti-bot challenge that was not bypassed.
    CloudflareIUAM,
    /// An opaque failure from a collaborator library.
    UnknownError(String),
    /// The vendor API returned a record without a usable title.
    MissingMangaTitle,
}

impl ScrapeError {
    /// True for the "search is not supported" kind, which the manager's
    /// federation step does not record as a real failure.
    pub fn is_search_not_supported(&self) -> (r: bool)
        ensures
            r == (self is SearchNotSupported),
    {
        match self {
            ScrapeError::SearchNotSupported(_) => true,
            _ => false,
        }
    }

    /// Short name of the error kind.
    pub fn kind_name(&self) -> (r: &'static str)
    {
        match self {
            ScrapeError::TransportError(_) => "transport error",
            ScrapeError::IoError(_) => "io error",
            ScrapeError::ConfigDeserializeError(_) => "configuration error",
            ScrapeError::WebScrapingError(_) => "web scraping error",
            ScrapeError::NotAValidURL(_) => "url parsing error",
            ScrapeError::SelectorError(_) => "selector error",
            ScrapeError::WebsiteNotSupported(_) => "website is not supported",
            ScrapeError::SearchNotSupported(_) => "search is not supported",
            ScrapeError::MultipleScrapingErrors(_) => "manga scraping errors",
            ScrapeError::CloudflareIUAM => "cloudflare under attack mode",
            ScrapeError::UnknownError(_) => "unknown error",
            ScrapeError::MissingMangaTitle => "missing manga title",
        }
    }
}

} // verus!
