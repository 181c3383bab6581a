//! The values that sources hand to the app: statuses, ratings, reading
//! directions, filters and links.
use vstd::prelude::*;

verus! {

/// A publication status.
#[derive(Debug, Clone, Copy, PartialEq, Eq, Structural)]
pub enum MangaStatus {
    Unknown,
    Ongoing,
    Completed,
    Cancelled,
    Hiatus,
}

/// A content rating.
#[derive(Debug, Clone, Copy, PartialEq, Eq, Structural)]
pub enum ContentRating {
    Unknown,
    Safe,
    Suggestive,
    NSFW,
}

/// A reading direction.
#[derive(Debug, Clone, Copy, PartialEq, Eq, Structural)]
pub enum Viewer {
    Unknown,
    LeftToRight,
    RightToLeft,
    Vertical,
    Webtoon,
}

/// How a home section shows its entries.
#[derive(Debug, Clone, Copy, PartialEq, Eq, Structural)]
pub enum HomeKind {
    /// A large carousel that scrolls by itself.
    BigScroller,
    /// Titles with their latest chapters, `page_size` a page when set.
    MangaChapterList { page_size: Option<i32> },
    /// A list of titles, numbered when it is a ranking, `page_size` a page
    /// when set.
    MangaList { ranking: bool, page_size: Option<i32> },
    /// A row of covers.
    Scroller,
}

/// A filter value as the app hands it to a source.
#[allow(inconsistent_fields)]
pub enum FilterValue {
    /// The text of a text filter.
    Text { id: String, value: String },
    /// The chosen sort option.
    Sort { id: String, index: i32, ascending: bool },
    /// The option chosen in a select filter.
    Select { id: String, value: String },
    /// The options included and excluded in a multi-select filter.
    MultiSelect { id: String, included: Vec<String>, excluded: Vec<String> },
    /// The state of a check filter.
    Check { id: String, value: i32 },
    /// A filter kind that sources here ignore.
    Other,
}

/// A listing, by id and display name.
pub struct ListingRef {
    pub id: String,
    pub name: String,
}

/// What a link to the site opens.
#[derive(Debug)]
pub enum DeepLink {
    /// A title.
    Manga { key: String },
    /// A chapter of a title.
    Chapter { manga_key: String, key: String },
}


/// What a `DeepLink` denotes: its variant and the characters of its keys.
pub enum DeepLinkView {
    Manga { key: Seq<char> },
    Chapter { manga_key: Seq<char>, key: Seq<char> },
}

impl View for DeepLink {
    type V = DeepLinkView;

    open spec fn view(&self) -> DeepLinkView {
        match self {
            DeepLink::Manga { key } => DeepLinkView::Manga { key: key@ },
            DeepLink::Chapter { manga_key, key } => DeepLinkView::Chapter {
                manga_key: manga_key@,
                key: key@,
            },
        }
    }
}

/// The view of an optional link.
pub open spec fn opt_link_view(o: Option<DeepLink>) -> Option<DeepLinkView> {
    match o {
        Some(l) => Some(l@),
        None => None,
    }
}

} // verus!
