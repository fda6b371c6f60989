//! The declarative site-configuration model: typed selector rules with
//! no behaviour of their own. Compiled patterns are kept as their source
//! strings, validated at load time; the extraction pipeline applies them
//! through the pattern engine when a rule runs.

use vstd::prelude::*;

verus! {

/// How matched nodes are turned into raw text.
#[derive(Debug, Clone, PartialEq)]
pub enum StringSelection {
    /// Concatenate the text of all matched nodes with a join string.
    AllText { join_with: String },
    /// Concatenate only the direct text children of matched nodes.
    OwnText,
    /// Take the first attribute present from an ordered preference list.
    Attributes(Vec<String>),
}

impl StringSelection {
    /// The default selection: all text joined with a single space.
    pub fn default_selection() -> (r: StringSelection)
        ensures
            r matches StringSelection::AllText { join_with } && join_with@ == " "@,
    {
        StringSelection::AllText { join_with: String::from_str(" ") }
    }
}

impl Default for StringSelection {
    /// The default selection: all text joined with a single space.
    fn default() -> (r: StringSelection)
        ensures
            r matches StringSelection::AllText { join_with } && join_with@ == " "@,
    {
        StringSelection::default_selection()
    }
}

/// Title-casing fix-up applied after cleanup.
#[derive(Debug, Clone, PartialEq, Eq)]
pub enum FixCapitalization {
    Title,
    Skip,
}

/// One ordered cleanup rule: a pattern and its replacement.
#[derive(Debug, Clone, PartialEq)]
pub struct CleanupOption {
    /// Source of the replacement pattern, validated when the rule is loaded.
    pub replace_regex: String,
    pub replace_with: String,
}

/// Post-processing options of a scalar selector.
#[derive(Debug, Clone, PartialEq)]
pub struct StringSelectorOptions {
    /// Cleanup rules, applied in declared order.
    pub cleanup: Vec<CleanupOption>,
    pub fix_capitalization: FixCapitalization,
    pub text_selection: StringSelection,
}

impl StringSelectorOptions {
    pub fn default_options() -> (r: StringSelectorOptions)
        ensures
            r.cleanup@.len() == 0,
            r.fix_capitalization == FixCapitalization::Skip,
            r.text_selection matches StringSelection::AllText { join_with } && join_with@ == " "@,
    {
        StringSelectorOptions {
            cleanup: Vec::new(),
            fix_capitalization: FixCapitalization::Skip,
            text_selection: StringSelection::default_selection(),
        }
    }
}

impl Default for StringSelectorOptions {
    /// No cleanup, no fix-up, all text joined with a single space.
    fn default() -> (r: StringSelectorOptions)
        ensures
            r.cleanup@.len() == 0,
            r.fix_capitalization == FixCapitalization::Skip,
            r.text_selection matches StringSelection::AllText { join_with } && join_with@ == " "@,
    {
        StringSelectorOptions::default_options()
    }
}

/// One scalar extraction rule.
#[derive(Debug, Clone, PartialEq)]
pub struct StringSelector {
    pub selector: String,
    pub options: StringSelectorOptions,
}

/// An ordered fallback group of scalar rules; the first rule that yields
/// non-empty output wins.
#[derive(Debug, Clone, PartialEq)]
pub struct StringSelectors {
    pub selectors: Vec<StringSelector>,
}

impl StringSelectors {
    /// A well-formed group has at least one member.
    pub open spec fn wf(&self) -> bool {
        self.selectors@.len() >= 1
    }
}

/// Post-processing options of a list selector.
#[derive(Debug, Clone, PartialEq)]
pub struct ArraySelectorOptions {
    pub cleanup: Vec<CleanupOption>,
    pub fix_capitalization: FixCapitalization,
    pub text_selection: StringSelection,
    /// Split pattern used to explode a single matched string into items.
    pub text_split_regex: Option<String>,
}

impl ArraySelectorOptions {
    pub fn default_options() -> (r: ArraySelectorOptions)
        ensures
            r.cleanup@.len() == 0,
            r.fix_capitalization == FixCapitalization::Skip,
            r.text_selection matches StringSelection::AllText { join_with } && join_with@ == " "@,
            r.text_split_regex matches Some(p) && p@ == default_split_pattern(),
    {
        ArraySelectorOptions {
            cleanup: Vec::new(),
            fix_capitalization: FixCapitalization::Skip,
            text_selection: StringSelection::default_selection(),
            text_split_regex: Some(default_split_regex()),
        }
    }
}

impl Default for ArraySelectorOptions {
    /// As the scalar defaults, with the default split pattern active.
    fn default() -> (r: ArraySelectorOptions)
        ensures
            r.cleanup@.len() == 0,
            r.fix_capitalization == FixCapitalization::Skip,
            r.text_selection matches StringSelection::AllText { join_with } && join_with@ == " "@,
            r.text_split_regex matches Some(p) && p@ == default_split_pattern(),
    {
        ArraySelectorOptions::default_options()
    }
}

/// The default split pattern for delimited single strings.
pub open spec fn default_split_pattern() -> Seq<char> {
    " *[,;\\-|]+ *"@
}

/// The default split pattern as a string value.
pub fn default_split_regex() -> (r: String)
    ensures
        r@ == default_split_pattern(),
{
    String::from_str(" *[,;\\-|]+ *")
}

/// One list extraction rule.
#[derive(Debug, Clone, PartialEq)]
pub struct ArraySelector {
    pub selector: String,
    pub options: ArraySelectorOptions,
}

/// An ordered fallback group of list rules.
#[derive(Debug, Clone, PartialEq)]
pub struct ArraySelectors {
    pub selectors: Vec<ArraySelector>,
}

impl ArraySelectors {
    pub open spec fn wf(&self) -> bool {
        self.selectors@.len() >= 1
    }
}

/// Acceptance rule of a configuration: explicit hostnames, or probe
/// selectors that must match somewhere in the document.
#[derive(Debug, Clone, PartialEq)]
pub struct Accept {
    pub selectors: Vec<String>,
    pub hostnames: Vec<String>,
}

/// Redirection rule: locate an embedded identifier, capture it, and fetch a
/// secondary document from the interpolated URL template.
#[derive(Debug, Clone, PartialEq)]
pub struct FetchExternal {
    /// Group locating the text that embeds the identifier.
    pub id: StringSelectors,
    /// Pattern whose capture named `id` is the identifier.
    pub regex: String,
    /// URL template; `{id}`, `{host}` and `{url}` are interpolated.
    pub url: String,
    /// HTTP method of the secondary request: `post`, or anything else for get.
    pub method: String,
}

/// Selectors of the chapter list.
#[derive(Debug, Clone, PartialEq)]
pub struct Chapter {
    /// Locates the chapter nodes themselves.
    pub base: StringSelectors,
    pub title: StringSelectors,
    pub number: Option<StringSelectors>,
    pub date: Option<StringSelectors>,
    pub url: StringSelectors,
    pub fetch_external: Vec<FetchExternal>,
}

/// Selectors of the manga page fields.
#[derive(Debug, Clone, PartialEq)]
pub struct Manga {
    pub title: StringSelectors,
    pub description: StringSelectors,
    pub cover_url: Option<StringSelectors>,
    pub status: Option<StringSelectors>,
    pub authors: Option<ArraySelectors>,
    pub genres: Option<ArraySelectors>,
    pub alt_titles: Option<ArraySelectors>,
    pub chapter: Chapter,
}

/// Selectors of the image list of one chapter page.
#[derive(Debug, Clone, PartialEq)]
pub struct Images {
    pub image_selector: ArraySelectors,
    pub fetch_external: Vec<FetchExternal>,
}

/// Selectors applied to each search result node.
#[derive(Debug, Clone, PartialEq)]
pub struct SearchSelectors {
    pub base: StringSelectors,
    pub url: StringSelectors,
    pub title: StringSelectors,
    pub cover_url: Option<StringSelectors>,
    pub posted: Option<StringSelectors>,
}

/// Search support of a configuration for one set of hostnames.
#[derive(Debug, Clone, PartialEq)]
pub struct SearchConfig {
    pub hostnames: Vec<String>,
    /// URL template; `{hostname}` and `{query}` are interpolated.
    pub search_url: String,
    /// Ordered substitutions applied to the query before interpolation.
    pub query_format: Vec<CleanupOption>,
    pub selectors: SearchSelectors,
}

/// One site configuration: immutable once loaded; many coexist and are
/// evaluated independently per request.
#[derive(Debug, Clone, PartialEq)]
pub struct MangaScraperConfig {
    pub name: String,
    pub accept: Accept,
    pub manga: Manga,
    pub images: Images,
    pub search: Vec<SearchConfig>,
    /// Date formats tried first by the date parser.
    pub date_formats: Vec<String>,
}

} // verus!
