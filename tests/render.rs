use disbahn::clock::{publication_instant, publication_text, validity_time_to_timestamp, CivilTime, TimeError};
use disbahn::feed::{find_category, parse_feed, Category, FeedEntry};
use disbahn::render::{
    icon_name_to_colour, icon_name_to_url, render, Field, RenderError, FOOTER_ICON_URL,
    FOOTER_TEXT, HAZARD_URL, INFO_URL, WORKS_URL,
};
use disbahn::text::html_to_discord_markdown;

fn category(domain: &str, name: &str) -> Category {
    Category { domain: Some(domain.to_string()), name: name.to_string() }
}

fn entry(guid: &str, pub_date: &str) -> FeedEntry {
    FeedEntry {
        guid: Some(guid.to_string()),
        title: Some(format!("Notice {guid}")),
        link: Some(format!("https://example.org/{guid}")),
        description: Some("Published 2024-01-01<br/><br/><b>Delay</b> on line <i>S1</i>.".to_string()),
        categories: vec![
            category("validityBegin", "2024-03-01 08:00:00"),
            category("validityEnd", "2024-07-01 08:00:00"),
            category("icon", "HIM2"),
        ],
        pub_date: Some(pub_date.to_string()),
    }
}

#[test]
fn transform_example() {
    assert_eq!(
        html_to_discord_markdown("Published 2024-01-01<br/><br/><b>Delay</b> on line <i>S1</i>."),
        "**Delay** on line *S1*."
    );
}

#[test]
fn transform_breaks_and_strike() {
    assert_eq!(html_to_discord_markdown("a<br>b<BR />c<s>x</s>"), "a\nb\nc~~x~~");
}

#[test]
fn transform_case_and_spaces_in_tags() {
    assert_eq!(html_to_discord_markdown("<B >bold</b ><I>it</I>"), "**bold***it*");
}

#[test]
fn transform_span_over_lines() {
    assert_eq!(html_to_discord_markdown("<b>one\ntwo</b> and <b>three</b>"), "**one\ntwo** and **three**");
}

#[test]
fn transform_unclosed_span_kept() {
    assert_eq!(html_to_discord_markdown("<b>open"), "<b>open");
}

#[test]
fn transform_single_break_keeps_prefix() {
    assert_eq!(html_to_discord_markdown("head<br/>tail"), "head\ntail");
}

#[test]
fn transform_prefix_only_on_first_line() {
    assert_eq!(html_to_discord_markdown("a\nb<br/><br/>c"), "a\nb\n\nc");
}

#[test]
fn transform_last_double_break_of_first_line() {
    assert_eq!(html_to_discord_markdown("x<br/><br/>y<br/> <br/>z"), "z");
}

#[test]
fn transform_empty() {
    assert_eq!(html_to_discord_markdown(""), "");
}

#[test]
fn validity_winter_time() {
    assert_eq!(validity_time_to_timestamp("2024-03-01 08:00:00"), Ok(1709276400));
}

#[test]
fn validity_summer_time() {
    assert_eq!(validity_time_to_timestamp("2024-07-01 08:00:00"), Ok(1719813600));
}

#[test]
fn validity_malformed() {
    assert_eq!(validity_time_to_timestamp("01.03.2024 08:00"), Err(TimeError::Malformed));
}

#[test]
fn validity_skipped_hour() {
    assert_eq!(validity_time_to_timestamp("2024-03-31 02:30:00"), Err(TimeError::Undefined));
}

#[test]
fn validity_repeated_hour() {
    assert_eq!(validity_time_to_timestamp("2024-10-27 02:30:00"), Ok(1729989000));
}

#[test]
fn civil_seconds_exact() {
    let epoch = CivilTime { year: 1970, month: 1, day: 1, hour: 0, minute: 0, second: 0 };
    assert_eq!(epoch.utc_seconds(), 0);
    let t = CivilTime { year: 2000, month: 3, day: 1, hour: 1, minute: 2, second: 3 };
    assert_eq!(t.utc_seconds(), 951868800 + 3723);
    let before = CivilTime { year: 1969, month: 12, day: 31, hour: 23, minute: 59, second: 59 };
    assert_eq!(before.utc_seconds(), -1);
}

#[test]
fn publication_date_round() {
    let t = publication_instant("Fri, 01 Mar 2024 08:00:00 +0100").unwrap();
    assert_eq!(t, 1709276400);
    assert_eq!(publication_text(t).unwrap(), "2024-03-01T07:00:00Z");
    assert_eq!(publication_instant("yesterday"), None);
}

#[test]
fn icons() {
    assert_eq!(icon_name_to_colour("HIM1"), 0xf5c211);
    assert_eq!(icon_name_to_colour("HIM2"), 0xc1121c);
    assert_eq!(icon_name_to_colour(""), 0x154889);
    assert_eq!(icon_name_to_colour("him1"), 0x154889);
    assert_eq!(icon_name_to_url("HIM1"), WORKS_URL);
    assert_eq!(icon_name_to_url("HIM2"), HAZARD_URL);
    assert_eq!(icon_name_to_url("other"), INFO_URL);
}

#[test]
fn categories_first_match() {
    let mut e = entry("a", "Fri, 01 Mar 2024 08:00:00 +0100");
    e.categories.push(category("icon", "HIM1"));
    assert_eq!(find_category(&e, "icon"), Some("HIM2".to_string()));
    assert_eq!(find_category(&e, "missing"), None);
}

#[test]
fn render_full_entry() {
    let e = entry("a", "Fri, 01 Mar 2024 08:00:00 +0100");
    let n = render(&e, "Check before you travel.").unwrap();
    assert_eq!(n.title, "Notice a");
    assert_eq!(n.link, "https://example.org/a");
    assert_eq!(n.thumbnail, HAZARD_URL);
    assert_eq!(n.colour, 0xc1121c);
    assert_eq!(n.description, "**Delay** on line *S1*.");
    assert_eq!(n.validity_begin, 1709276400);
    assert_eq!(n.validity_end, 1719813600);
    assert_eq!(n.hint, "Check before you travel.");
    assert_eq!(n.timestamp, "2024-03-01T07:00:00Z");
    assert_eq!(n.footer_text, FOOTER_TEXT);
    assert_eq!(n.footer_icon, FOOTER_ICON_URL);
}

#[test]
fn render_without_icon_uses_default() {
    let mut e = entry("a", "Fri, 01 Mar 2024 08:00:00 +0100");
    e.categories.truncate(2);
    let n = render(&e, "").unwrap();
    assert_eq!(n.thumbnail, INFO_URL);
    assert_eq!(n.colour, 0x154889);
}

#[test]
fn render_missing_fields() {
    let mut e = entry("a", "Fri, 01 Mar 2024 08:00:00 +0100");
    e.title = None;
    assert_eq!(render(&e, "").unwrap_err(), RenderError::MissingField(Field::Title));
    let mut e = entry("a", "Fri, 01 Mar 2024 08:00:00 +0100");
    e.link = None;
    assert_eq!(render(&e, "").unwrap_err(), RenderError::MissingField(Field::Link));
    let mut e = entry("a", "Fri, 01 Mar 2024 08:00:00 +0100");
    e.categories.remove(1);
    assert_eq!(render(&e, "").unwrap_err(), RenderError::MissingField(Field::ValidityEnd));
    let mut e = entry("a", "Fri, 01 Mar 2024 08:00:00 +0100");
    e.description = None;
    assert_eq!(render(&e, "").unwrap_err(), RenderError::MissingField(Field::Description));
    let mut e = entry("a", "Fri, 01 Mar 2024 08:00:00 +0100");
    e.pub_date = None;
    assert_eq!(render(&e, "").unwrap_err(), RenderError::MissingField(Field::PubDate));
}

#[test]
fn render_bad_times() {
    let mut e = entry("a", "Fri, 01 Mar 2024 08:00:00 +0100");
    e.categories[0] = category("validityBegin", "soon");
    assert_eq!(
        render(&e, "").unwrap_err(),
        RenderError::TimeParse(Field::ValidityBegin, TimeError::Malformed)
    );
    let e = entry("a", "01.03.2024");
    assert_eq!(render(&e, "").unwrap_err(), RenderError::TimeParse(Field::PubDate, TimeError::Malformed));
}

#[test]
fn feed_parses_in_order() {
    let xml = r#"<?xml version="1.0"?><rss version="2.0"><channel><title>t</title><link>l</link><description>d</description>
<item><guid>g1</guid><title>One</title><category domain="icon">HIM1</category><pubDate>Fri, 01 Mar 2024 08:00:00 +0100</pubDate></item>
<item><guid>g2</guid><title>Two</title></item>
</channel></rss>"#;
    let entries = parse_feed(xml.as_bytes()).unwrap();
    assert_eq!(entries.len(), 2);
    assert_eq!(entries[0].guid.as_deref(), Some("g1"));
    assert_eq!(entries[0].title.as_deref(), Some("One"));
    assert_eq!(entries[0].categories[0].domain.as_deref(), Some("icon"));
    assert_eq!(entries[0].categories[0].name, "HIM1");
    assert_eq!(entries[1].guid.as_deref(), Some("g2"));
    assert_eq!(entries[1].pub_date, None);
}

#[test]
fn feed_format_error() {
    assert!(parse_feed(b"not a feed").is_err());
}
