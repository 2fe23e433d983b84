//! Turning a feed entry into the notification that is posted for it.
use crate::clock::{
    publication_instant, publication_text, rfc2822_instant_of, utc_text_of, validity_instant,
    validity_time_to_timestamp, TimeError,
};
use crate::feed::{category_value, find_category, EntryView, FeedEntry};
use crate::text::{html_to_discord_markdown, markdown};
use vstd::prelude::*;

verus! {

pub const ICON_WORKS: &'static str = "HIM1";

pub const ICON_HAZARD: &'static str = "HIM2";

pub const WORKS_URL: &'static str = "https://upload.wikimedia.org/wikipedia/commons/thumb/a/a9/Zeichen_123_-_Arbeitsstelle%2C_StVO_2013.svg/273px-Zeichen_123_-_Arbeitsstelle%2C_StVO_2013.svg.png";

pub const HAZARD_URL: &'static str = "https://upload.wikimedia.org/wikipedia/commons/thumb/0/02/Zeichen_101_-_Gefahrstelle%2C_StVO_1970.svg/273px-Zeichen_101_-_Gefahrstelle%2C_StVO_1970.svg.png";

pub const INFO_URL: &'static str = "https://upload.wikimedia.org/wikipedia/commons/thumb/5/56/Zeichen_365-61_-_Informationsstelle%2C_StVO_2013.svg/240px-Zeichen_365-61_-_Informationsstelle%2C_StVO_2013.svg.png";

pub const WORKS_COLOUR: u32 = 0xf5c211;

pub const HAZARD_COLOUR: u32 = 0xc1121c;

pub const INFO_COLOUR: u32 = 0x154889;

pub const FOOTER_TEXT: &'static str = "Quelle: https://zuginfo.nrw/ \u{2013} Alle Angaben ohne Gewehr \u{1F52B}";

pub const FOOTER_ICON_URL: &'static str = "https://www.zuginfo.nrw/img/customer/apple-touch-icon.png";

pub const VALIDITY_BEGIN: &'static str = "validityBegin";

pub const VALIDITY_END: &'static str = "validityEnd";

pub const ICON: &'static str = "icon";

/// The thumbnail shown for an icon name; unknown names get the information sign.
pub open spec fn icon_url(name: Seq<char>) -> Seq<char> {
    if name == ICON_WORKS@ {
        WORKS_URL@
    } else if name == ICON_HAZARD@ {
        HAZARD_URL@
    } else {
        INFO_URL@
    }
}

/// The accent colour for an icon name; unknown names get the information blue.
pub open spec fn icon_colour(name: Seq<char>) -> u32 {
    if name == ICON_WORKS@ {
        WORKS_COLOUR
    } else if name == ICON_HAZARD@ {
        HAZARD_COLOUR
    } else {
        INFO_COLOUR
    }
}

pub fn icon_name_to_url(name: &str) -> (r: &'static str)
    ensures
        r@ == icon_url(name@),
{
    let n = String::from_str(name);
    if n == String::from_str(ICON_WORKS) {
        WORKS_URL
    } else if n == String::from_str(ICON_HAZARD) {
        HAZARD_URL
    } else {
        INFO_URL
    }
}

pub fn icon_name_to_colour(name: &str) -> (r: u32)
    ensures
        r == icon_colour(name@),
{
    let n = String::from_str(name);
    if n == String::from_str(ICON_WORKS) {
        WORKS_COLOUR
    } else if n == String::from_str(ICON_HAZARD) {
        HAZARD_COLOUR
    } else {
        INFO_COLOUR
    }
}

/// The fields of an entry that rendering needs.
#[derive(Clone, Copy, Debug, PartialEq, Eq, Structural)]
pub enum Field {
    Title,
    Link,
    ValidityBegin,
    ValidityEnd,
    Description,
    PubDate,
}

/// Why an entry could not be rendered.
#[derive(Clone, Copy, Debug, PartialEq, Eq, Structural)]
pub enum RenderError {
    /// A required field is absent.
    MissingField(Field),
    /// A time field could not be read or converted.
    TimeParse(Field, TimeError),
}

/// The notification posted for an entry.
#[derive(Clone, Debug)]
pub struct RenderedNotification {
    pub title: String,
    pub link: String,
    pub thumbnail: String,
    pub colour: u32,
    pub description: String,
    /// Start of validity, in seconds since the epoch.
    pub validity_begin: i64,
    /// End of validity, in seconds since the epoch.
    pub validity_end: i64,
    /// The fixed informational field.
    pub hint: String,
    /// The publication time as UTC text at one-second precision.
    pub timestamp: String,
    pub footer_text: String,
    pub footer_icon: String,
}

pub struct NotificationView {
    pub title: Seq<char>,
    pub link: Seq<char>,
    pub thumbnail: Seq<char>,
    pub colour: u32,
    pub description: Seq<char>,
    pub validity_begin: int,
    pub validity_end: int,
    pub hint: Seq<char>,
    pub timestamp: Seq<char>,
    pub footer_text: Seq<char>,
    pub footer_icon: Seq<char>,
}

impl View for RenderedNotification {
    type V = NotificationView;

    open spec fn view(&self) -> NotificationView {
        NotificationView {
            title: self.title@,
            link: self.link@,
            thumbnail: self.thumbnail@,
            colour: self.colour,
            description: self.description@,
            validity_begin: self.validity_begin as int,
            validity_end: self.validity_end as int,
            hint: self.hint@,
            timestamp: self.timestamp@,
            footer_text: self.footer_text@,
            footer_icon: self.footer_icon@,
        }
    }
}

impl RenderedNotification {
    /// A copy of the notification.
    pub fn duplicate(&self) -> (r: RenderedNotification)
        ensures
            r@ == self@,
    {
        RenderedNotification {
            title: self.title.clone(),
            link: self.link.clone(),
            thumbnail: self.thumbnail.clone(),
            colour: self.colour,
            description: self.description.clone(),
            validity_begin: self.validity_begin,
            validity_end: self.validity_end,
            hint: self.hint.clone(),
            timestamp: self.timestamp.clone(),
            footer_text: self.footer_text.clone(),
            footer_icon: self.footer_icon.clone(),
        }
    }
}

/// A validity category's instant.
pub open spec fn validity_field(e: EntryView, domain: Seq<char>, f: Field) -> Result<
    int,
    RenderError,
> {
    match category_value(e.categories, domain) {
        None => Err(RenderError::MissingField(f)),
        Some(v) => match validity_instant(v) {
            Ok(t) => Ok(t),
            Err(err) => Err(RenderError::TimeParse(f, err)),
        },
    }
}

/// The publication instant of an entry.
pub open spec fn published_at(e: EntryView) -> Result<int, RenderError> {
    match e.pub_date {
        None => Err(RenderError::MissingField(Field::PubDate)),
        Some(p) => match rfc2822_instant_of(p) {
            Some(t) => Ok(t),
            None => Err(RenderError::TimeParse(Field::PubDate, TimeError::Malformed)),
        },
    }
}

/// The icon category's name, empty where there is none.
pub open spec fn icon_name(e: EntryView) -> Seq<char> {
    match category_value(e.categories, ICON@) {
        Some(n) => n,
        None => Seq::empty(),
    }
}

/// What an entry renders to, with `hint` as the informational field. The
/// fields are checked in the order title, link, validity begin and end,
/// description, publication date; the first that fails gives the error.
pub open spec fn rendering(e: EntryView, hint: Seq<char>) -> Result<NotificationView, RenderError> {
    match (e.title, e.link) {
        (None, _) => Err(RenderError::MissingField(Field::Title)),
        (_, None) => Err(RenderError::MissingField(Field::Link)),
        (Some(title), Some(link)) => match validity_field(e, VALIDITY_BEGIN@, Field::ValidityBegin) {
            Err(err) => Err(err),
            Ok(begin) => match validity_field(e, VALIDITY_END@, Field::ValidityEnd) {
                Err(err) => Err(err),
                Ok(end) => match e.description {
                    None => Err(RenderError::MissingField(Field::Description)),
                    Some(d) => match published_at(e) {
                        Err(err) => Err(err),
                        Ok(p) => match utc_text_of(p) {
                            None => Err(RenderError::TimeParse(Field::PubDate, TimeError::Malformed)),
                            Some(stamp) => Ok(
                                NotificationView {
                                    title,
                                    link,
                                    thumbnail: icon_url(icon_name(e)),
                                    colour: icon_colour(icon_name(e)),
                                    description: markdown(d),
                                    validity_begin: begin,
                                    validity_end: end,
                                    hint,
                                    timestamp: stamp,
                                    footer_text: FOOTER_TEXT@,
                                    footer_icon: FOOTER_ICON_URL@,
                                },
                            ),
                        },
                    },
                },
            },
        },
    }
}

pub open spec fn rendered_view(r: Result<RenderedNotification, RenderError>) -> Result<
    NotificationView,
    RenderError,
> {
    match r {
        Ok(n) => Ok(n@),
        Err(e) => Err(e),
    }
}

fn validity_of(entry: &FeedEntry, domain: &str, f: Field) -> (r: Result<i64, RenderError>)
    ensures
        match r {
            Ok(t) => validity_field(entry@, domain@, f) == Ok::<int, RenderError>(t as int),
            Err(e) => validity_field(entry@, domain@, f) == Err::<int, RenderError>(e),
        },
{
    match find_category(entry, domain) {
        None => Err(RenderError::MissingField(f)),
        Some(v) => match validity_time_to_timestamp(v.as_str()) {
            Ok(t) => Ok(t),
            Err(err) => Err(RenderError::TimeParse(f, err)),
        },
    }
}

/// The publication instant of an entry, in seconds since the epoch.
pub fn published_instant(entry: &FeedEntry) -> (r: Result<i64, RenderError>)
    ensures
        match r {
            Ok(t) => published_at(entry@) == Ok::<int, RenderError>(t as int),
            Err(e) => published_at(entry@) == Err::<int, RenderError>(e),
        },
{
    match &entry.pub_date {
        None => Err(RenderError::MissingField(Field::PubDate)),
        Some(p) => match publication_instant(p.as_str()) {
            Some(t) => Ok(t),
            None => Err(RenderError::TimeParse(Field::PubDate, TimeError::Malformed)),
        },
    }
}

/// Renders an entry into its notification, with `hint` as the fixed
/// informational field.
pub fn render(entry: &FeedEntry, hint: &str) -> (r: Result<RenderedNotification, RenderError>)
    ensures
        rendered_view(r) == rendering(entry@, hint@),
{
    let title = match &entry.title {
        None => return Err(RenderError::MissingField(Field::Title)),
        Some(t) => t.clone(),
    };
    let link = match &entry.link {
        None => return Err(RenderError::MissingField(Field::Link)),
        Some(l) => l.clone(),
    };
    let begin = validity_of(entry, VALIDITY_BEGIN, Field::ValidityBegin)?;
    let end = validity_of(entry, VALIDITY_END, Field::ValidityEnd)?;
    let icon = match find_category(entry, ICON) {
        Some(n) => n,
        None => String::new(),
    };
    let description = match &entry.description {
        None => return Err(RenderError::MissingField(Field::Description)),
        Some(d) => html_to_discord_markdown(d.as_str()),
    };
    let published = published_instant(entry)?;
    let stamp = match publication_text(published) {
        None => return Err(RenderError::TimeParse(Field::PubDate, TimeError::Malformed)),
        Some(s) => s,
    };
    Ok(
        RenderedNotification {
            title,
            link,
            thumbnail: String::from_str(icon_name_to_url(icon.as_str())),
            colour: icon_name_to_colour(icon.as_str()),
            description,
            validity_begin: begin,
            validity_end: end,
            hint: String::from_str(hint),
            timestamp: stamp,
            footer_text: String::from_str(FOOTER_TEXT),
            footer_icon: String::from_str(FOOTER_ICON_URL),
        },
    )
}

} // verus!
