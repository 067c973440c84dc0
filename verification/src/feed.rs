//! Reads a friend's feed: from the bytes of an RSS document to the items
//! that carry a date.
//!
//! The reader of RSS documents takes stack for each level of nesting, so a
//! document is first held to a limit on how deep its elements nest. A
//! document beyond that limit is taken as no feed.

use vstd::prelude::*;
use crate::window::Instant;

verus! {

/// One item of a feed as the document gives it. Each part may be missing.
#[derive(Debug)]
pub struct FeedRecord {
    pub title: Option<String>,
    pub link: Option<String>,
    pub pub_date: Option<String>,
}

/// One item of a feed with its date understood.
#[derive(Debug)]
pub struct RawFeedItem {
    pub title: String,
    pub link: String,
    pub published_at: Instant,
}

/// What a `RawFeedItem` holds, as sequences of characters.
pub ghost struct RawFeedItemView {
    pub title: Seq<char>,
    pub link: Seq<char>,
    pub published_at: Instant,
}

impl View for RawFeedItem {
    type V = RawFeedItemView;

    open spec fn view(&self) -> RawFeedItemView {
        RawFeedItemView { title: self.title@, link: self.link@, published_at: self.published_at }
    }
}

/// The characters of a text that may be missing.
pub open spec fn text_view(text: Option<String>) -> Option<Seq<char>> {
    match text {
        Some(s) => Some(s@),
        None => None,
    }
}

impl View for FeedRecord {
    type V = (Option<Seq<char>>, Option<Seq<char>>, Option<Seq<char>>);

    open spec fn view(&self) -> (Option<Seq<char>>, Option<Seq<char>>, Option<Seq<char>>) {
        (text_view(self.title), text_view(self.link), text_view(self.pub_date))
    }
}

/// The views of the records in `records`.
pub open spec fn record_views(records: Seq<FeedRecord>) -> Seq<
    (Option<Seq<char>>, Option<Seq<char>>, Option<Seq<char>>),
> {
    records.map_values(|r: FeedRecord| r@)
}

/// The views of the items in `items`.
pub open spec fn item_views(items: Seq<RawFeedItem>) -> Seq<RawFeedItemView> {
    items.map_values(|i: RawFeedItem| i@)
}

/// What a tag does to the nesting of a document: a start tag opens an
/// element, an end tag closes one, and an empty-element tag does both.
#[derive(Clone, Copy, Debug, PartialEq, Eq, Structural)]
pub enum Mark {
    Open,
    Close,
    Leaf,
}

/// The deepest nesting of elements that a feed document may have.
pub const MAX_NESTING: usize = 128;

#[verifier::external_type_specification]
#[verifier::external_body]
pub struct ExRssError(rss::Error);

#[verifier::external_type_specification]
#[verifier::external_body]
pub struct ExDateParseError(chrono::ParseError);

/// The tags that a `quick_xml::Reader` reads from a document, in the
/// document's order, up to the document's end or to the first error.
pub uninterp spec fn xml_marks(bytes: Seq<u8>) -> Seq<Mark>;

/// The items that `rss::Channel::read_from` finds in a document, each as its
/// title, link and publication date, or `None` where it rejects the document.
pub uninterp spec fn rss_items(bytes: Seq<u8>) -> Option<
    Seq<(Option<Seq<char>>, Option<Seq<char>>, Option<Seq<char>>)>,
>;

/// The instant that `chrono::DateTime::parse_from_rfc2822` reads from a date,
/// as seconds since the Unix epoch and nanoseconds, or `None` where it rejects
/// the text.
pub uninterp spec fn rfc2822_instant(text: Seq<char>) -> Option<(i64, u32)>;

/// Makes a `quick_xml::Reader` with `Reader::from_reader` over the document
/// and calls `Reader::read_event_into` until the end of the document or the
/// first error, noting each `Event::Start`, `Event::End` and `Event::Empty`.
/// The contract claims only that the outcome is fixed by the bytes.
#[verifier::external_body]
pub(crate) fn tag_marks(bytes: &[u8]) -> (marks: Vec<Mark>)
    ensures
        marks@ == xml_marks(bytes@),
{
    let mut reader = quick_xml::Reader::from_reader(bytes);
    let mut buf = Vec::new();
    let mut marks = Vec::new();
    loop {
        match reader.read_event_into(&mut buf) {
            Ok(quick_xml::events::Event::Start(_)) => marks.push(Mark::Open),
            Ok(quick_xml::events::Event::End(_)) => marks.push(Mark::Close),
            Ok(quick_xml::events::Event::Empty(_)) => marks.push(Mark::Leaf),
            Ok(quick_xml::events::Event::Eof) | Err(_) => return marks,
            Ok(_) => {},
        }
        buf.clear();
    }
}

/// Calls `rss::Channel::read_from` on the document and copies title, link and
/// publication date out of each of `Channel::items`, in the document's order.
/// `read_from` reads the document with a `quick_xml::Reader`, and inside an
/// element with a prefixed name it goes one call deeper for each element
/// that is open, so the document's nesting is required to be within the
/// limit. The contract claims only that the outcome is fixed by the bytes.
#[verifier::external_body]
pub(crate) fn read_channel(bytes: &[u8]) -> (r: Result<Vec<FeedRecord>, rss::Error>)
    requires
        deepest(xml_marks(bytes@)) <= MAX_NESTING,
    ensures
        match r {
            Ok(records) => rss_items(bytes@) == Some(record_views(records@)),
            Err(_) => rss_items(bytes@).is_none(),
        },
{
    match rss::Channel::read_from(bytes) {
        Ok(channel) => Ok(
            channel.items().iter().map(
                |item| FeedRecord {
                    title: item.title().map(str::to_owned),
                    link: item.link().map(str::to_owned),
                    pub_date: item.pub_date().map(str::to_owned),
                },
            ).collect(),
        ),
        Err(e) => Err(e),
    }
}

/// Calls `chrono::DateTime::parse_from_rfc2822` and takes `timestamp` and
/// `timestamp_subsec_nanos` of the date. The contract claims only that the
/// outcome is fixed by the text.
#[verifier::external_body]
pub(crate) fn parse_rfc2822(text: &str) -> (r: Result<(i64, u32), chrono::ParseError>)
    ensures
        match r {
            Ok(at) => rfc2822_instant(text@) == Some(at),
            Err(_) => rfc2822_instant(text@).is_none(),
        },
{
    match chrono::DateTime::parse_from_rfc2822(text) {
        Ok(date) => Ok((date.timestamp(), date.timestamp_subsec_nanos())),
        Err(e) => Err(e),
    }
}

/// The number of elements that are open after the tags. An end tag with
/// nothing open leaves nothing open.
pub open spec fn depth_after(marks: Seq<Mark>) -> nat
    decreases marks.len(),
{
    if marks.len() == 0 {
        0
    } else {
        let before = depth_after(marks.drop_last());
        match marks.last() {
            Mark::Open => before + 1,
            Mark::Close => if before > 0 {
                (before - 1) as nat
            } else {
                0
            },
            Mark::Leaf => before,
        }
    }
}

/// The largest number of elements that are open at once while the tags are
/// read. An empty-element tag opens its element for a moment.
pub open spec fn deepest(marks: Seq<Mark>) -> nat
    decreases marks.len(),
{
    if marks.len() == 0 {
        0
    } else {
        let earlier = deepest(marks.drop_last());
        let here = match marks.last() {
            Mark::Leaf => depth_after(marks.drop_last()) + 1,
            _ => depth_after(marks),
        };
        if here > earlier {
            here
        } else {
            earlier
        }
    }
}

/// The items of a feed document, or `None` where the document nests deeper
/// than the limit or is no feed.
pub open spec fn feed_items(bytes: Seq<u8>) -> Option<Seq<RawFeedItemView>> {
    if deepest(xml_marks(bytes)) > MAX_NESTING {
        None
    } else {
        match rss_items(bytes) {
            Some(records) => Some(dated(records)),
            None => None,
        }
    }
}

/// The title of an item that has none.
pub open spec fn untitled() -> Seq<char> {
    "Unknown Movie"@
}

/// The item for a record published at `at`: a missing title becomes the
/// title of the untitled, a missing link the empty link.
pub open spec fn item_at(
    record: (Option<Seq<char>>, Option<Seq<char>>, Option<Seq<char>>),
    at: Instant,
) -> RawFeedItemView {
    RawFeedItemView {
        title: match record.0 {
            Some(t) => t,
            None => untitled(),
        },
        link: match record.1 {
            Some(l) => l,
            None => Seq::empty(),
        },
        published_at: at,
    }
}

/// The item for a record, or none: a record without a date, or with a date
/// that cannot be read, gives no item.
pub open spec fn dated_one(
    record: (Option<Seq<char>>, Option<Seq<char>>, Option<Seq<char>>),
) -> Option<RawFeedItemView> {
    match record.2 {
        Some(date) => match rfc2822_instant(date) {
            Some((secs, nanos)) => Some(item_at(record, Instant { secs, nanos })),
            None => None,
        },
        None => None,
    }
}

/// The items for the records that give one, in the order of the records.
pub open spec fn dated(
    records: Seq<(Option<Seq<char>>, Option<Seq<char>>, Option<Seq<char>>)>,
) -> Seq<RawFeedItemView>
    decreases records.len(),
{
    if records.len() == 0 {
        Seq::empty()
    } else {
        let earlier = dated(records.drop_last());
        match dated_one(records.last()) {
            Some(item) => earlier.push(item),
            None => earlier,
        }
    }
}

/// Makes the item for a record published at `at`.
pub fn item_with_date(record: &FeedRecord, at: Instant) -> (item: RawFeedItem)
    ensures
        item@ == item_at(record@, at),
{
    let title = match &record.title {
        Some(t) => t.clone(),
        None => "Unknown Movie".to_owned(),
    };
    let link = match &record.link {
        Some(l) => l.clone(),
        None => String::new(),
    };
    RawFeedItem { title, link, published_at: at }
}

/// Makes the item for a record, where it has a date that can be read.
pub fn dated_item(record: &FeedRecord) -> (r: Option<RawFeedItem>)
    ensures
        match r {
            Some(item) => dated_one(record@) == Some(item@),
            None => dated_one(record@).is_none(),
        },
{
    match &record.pub_date {
        Some(date) => match parse_rfc2822(date.as_str()) {
            Ok((secs, nanos)) => Some(item_with_date(record, Instant { secs, nanos })),
            Err(_) => None,
        },
        None => None,
    }
}

/// Makes the items for the records that have a date that can be read, in the
/// order of the records.
pub fn dated_items(records: &Vec<FeedRecord>) -> (items: Vec<RawFeedItem>)
    ensures
        item_views(items@) == dated(record_views(records@)),
{
    let ghost views = record_views(records@);
    let mut items: Vec<RawFeedItem> = Vec::new();
    let n: usize = records.len();
    let mut i: usize = 0;
    assert(item_views(items@) =~= dated(views.take(0)));
    while i < n
        invariant
            i <= n,
            n == records@.len(),
            views == record_views(records@),
            item_views(items@) == dated(views.take(i as int)),
        decreases n - i,
    {
        let ghost before = item_views(items@);
        assert(views.take(i + 1).drop_last() =~= views.take(i as int));
        assert(views.take(i + 1).last() == records@[i as int]@);
        match dated_item(&records[i]) {
            Some(item) => {
                let ghost v = item@;
                items.push(item);
                assert(item_views(items@) =~= before.push(v));
            },
            None => {},
        }
        i += 1;
    }
    assert(views.take(n as int) =~= views);
    items
}

/// Finds the largest number of elements that are open at once while the
/// tags are read.
pub fn nesting(marks: &Vec<Mark>) -> (r: usize)
    ensures
        r == deepest(marks@),
{
    let n: usize = marks.len();
    let mut depth: usize = 0;
    let mut most: usize = 0;
    let mut i: usize = 0;
    while i < n
        invariant
            i <= n,
            n == marks@.len(),
            depth == depth_after(marks@.take(i as int)),
            most == deepest(marks@.take(i as int)),
            depth <= i,
            most <= i,
        decreases n - i,
    {
        assert(marks@.take(i + 1).drop_last() =~= marks@.take(i as int));
        assert(marks@.take(i + 1).last() == marks@[i as int]);
        let here: usize = match marks[i] {
            Mark::Open => {
                depth = depth + 1;
                depth
            },
            Mark::Close => {
                if depth > 0 {
                    depth = depth - 1;
                }
                depth
            },
            Mark::Leaf => depth + 1,
        };
        if here > most {
            most = here;
        }
        i += 1;
    }
    assert(marks@.take(n as int) =~= marks@);
    most
}

/// Reads a feed document. Returns the items that have a date that can be
/// read, or `None` where the document nests deeper than the limit or is no
/// feed.
pub fn read_feed(bytes: &[u8]) -> (r: Option<Vec<RawFeedItem>>)
    ensures
        match feed_items(bytes@) {
            Some(items) => r.is_some() && item_views(r.unwrap()@) == items,
            None => r.is_none(),
        },
{
    let marks = tag_marks(bytes);
    if nesting(&marks) > MAX_NESTING {
        return None;
    }
    match read_channel(bytes) {
        Ok(records) => Some(dated_items(&records)),
        Err(_) => None,
    }
}

} // verus!
