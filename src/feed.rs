//! Feed entries as plain values, and reading them out of an RSS document.
use vstd::prelude::*;

verus! {

/// A named category tag of an entry (`<category domain="…">name</category>`).
#[derive(Clone, Debug)]
pub struct Category {
    pub domain: Option<String>,
    pub name: String,
}

/// One item of the feed, as published.
#[derive(Clone, Debug)]
pub struct FeedEntry {
    pub guid: Option<String>,
    pub title: Option<String>,
    pub link: Option<String>,
    pub description: Option<String>,
    pub categories: Vec<Category>,
    pub pub_date: Option<String>,
}

pub struct CategoryView {
    pub domain: Option<Seq<char>>,
    pub name: Seq<char>,
}

pub struct EntryView {
    pub guid: Option<Seq<char>>,
    pub title: Option<Seq<char>>,
    pub link: Option<Seq<char>>,
    pub description: Option<Seq<char>>,
    pub categories: Seq<CategoryView>,
    pub pub_date: Option<Seq<char>>,
}

pub open spec fn opt_view(o: Option<String>) -> Option<Seq<char>> {
    match o {
        Some(s) => Some(s@),
        None => None,
    }
}

impl View for Category {
    type V = CategoryView;

    open spec fn view(&self) -> CategoryView {
        CategoryView { domain: opt_view(self.domain), name: self.name@ }
    }
}

impl View for FeedEntry {
    type V = EntryView;

    open spec fn view(&self) -> EntryView {
        EntryView {
            guid: opt_view(self.guid),
            title: opt_view(self.title),
            link: opt_view(self.link),
            description: opt_view(self.description),
            categories: self.categories@.map_values(|c: Category| c@),
            pub_date: opt_view(self.pub_date),
        }
    }
}

pub open spec fn entries_view(v: Seq<FeedEntry>) -> Seq<EntryView> {
    v.map_values(|e: FeedEntry| e@)
}

/// The name of the first category at or after `i` whose domain is `d`.
pub open spec fn category_from(cats: Seq<CategoryView>, i: int, d: Seq<char>) -> Option<Seq<char>>
    decreases cats.len() - i,
{
    if 0 <= i < cats.len() {
        if cats[i].domain == Some(d) {
            Some(cats[i].name)
        } else {
            category_from(cats, i + 1, d)
        }
    } else {
        None
    }
}

/// The name of the first category whose domain is `d`.
pub open spec fn category_value(cats: Seq<CategoryView>, d: Seq<char>) -> Option<Seq<char>> {
    category_from(cats, 0, d)
}

/// The name of the entry's first category in the domain `domain`.
pub fn find_category(entry: &FeedEntry, domain: &str) -> (r: Option<String>)
    ensures
        opt_view(r) == category_value(entry@.categories, domain@),
{
    let key = String::from_str(domain);
    let cats = &entry.categories;
    let ghost cv = entry@.categories;
    let mut i: usize = 0;
    while i < cats.len()
        invariant
            i <= cats.len(),
            key@ == domain@,
            cv == entry@.categories,
            cv == cats@.map_values(|c: Category| c@),
            category_from(cv, i as int, domain@) == category_value(cv, domain@),
        decreases cats.len() - i,
    {
        let c = &cats[i];
        assert(cv[i as int] == c@ && cv.len() == cats.len());
        if let Some(d) = &c.domain {
            if *d == key {
                return Some(c.name.clone());
            }
        }
        i += 1;
    }
    None
}

/// What rss's `Channel::read_from` reads from the bytes: the items, in
/// document order, or nothing where the bytes are not an RSS channel.
pub uninterp spec fn rss_items_of(bytes: Seq<u8>) -> Option<Seq<EntryView>>;

/// Relies on rss's `Channel::read_from` and its item accessors: the items
/// of the channel in document order, each field copied as it stands.
#[verifier::external_body]
fn read_channel(bytes: &[u8]) -> (r: Option<Vec<FeedEntry>>)
    ensures
        match r {
            Some(v) => rss_items_of(bytes@) == Some(entries_view(v@)),
            None => rss_items_of(bytes@) is None,
        },
{
    let own = |s: &str| s.to_string();
    rss::Channel::read_from(bytes).ok().map(|ch| ch.items().iter().map(|i| FeedEntry {
        guid: i.guid().map(|g| g.value().to_string()),
        title: i.title().map(own),
        link: i.link().map(own),
        description: i.description().map(own),
        categories: i.categories().iter().map(|c| Category {
            domain: c.domain().map(own),
            name: c.name.clone(),
        }).collect(),
        pub_date: i.pub_date().map(own),
    }).collect())
}

/// Why a feed could not be read.
#[derive(Clone, Copy, Debug, PartialEq, Eq, Structural)]
pub enum FeedFormatError {
    NotAFeed,
}

/// Parses feed bytes into its entries, in the order the feed lists them.
pub fn parse_feed(bytes: &[u8]) -> (r: Result<Vec<FeedEntry>, FeedFormatError>)
    ensures
        match r {
            Ok(v) => rss_items_of(bytes@) == Some(entries_view(v@)),
            Err(_) => rss_items_of(bytes@) is None,
        },
{
    match read_channel(bytes) {
        Some(v) => Ok(v),
        None => Err(FeedFormatError::NotAFeed),
    }
}

} // verus!
