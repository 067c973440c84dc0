//! The roster: the friends whose feeds make the digest.
//!
//! The roster comes as CSV text with a header line. Each row names a friend
//! and the friend's name at the feed provider.

use vstd::prelude::*;
use crate::link::PROVIDER_HOST;
use crate::text::{chars_of, slice_of};

verus! {

/// One friend: the name shown in the digest, and the name at the feed
/// provider.
#[derive(Debug)]
pub struct RosterEntry {
    pub display_name: String,
    pub feed_username: String,
}

/// What a `RosterEntry` holds, as sequences of characters.
pub ghost struct RosterEntryView {
    pub display_name: Seq<char>,
    pub feed_username: Seq<char>,
}

impl View for RosterEntry {
    type V = RosterEntryView;

    open spec fn view(&self) -> RosterEntryView {
        RosterEntryView { display_name: self.display_name@, feed_username: self.feed_username@ }
    }
}

/// Why a roster could not be read. Rows count from zero, after the header.
#[derive(Clone, Copy, Debug, PartialEq, Eq, Structural)]
pub enum RosterError {
    /// The row is not well-formed CSV.
    Unreadable { row: usize },
    /// The row has no second field.
    MissingUsername { row: usize },
}

#[verifier::external_type_specification]
#[verifier::external_body]
pub struct ExCsvError(csv::Error);

/// Whether `c` is white space: one of the characters with the Unicode
/// property `White_Space`.
pub open spec fn white_space(c: char) -> bool {
    ||| '\u{9}' <= c <= '\u{d}'
    ||| c == ' '
    ||| c == '\u{85}'
    ||| c == '\u{a0}'
    ||| c == '\u{1680}'
    ||| '\u{2000}' <= c <= '\u{200a}'
    ||| c == '\u{2028}'
    ||| c == '\u{2029}'
    ||| c == '\u{202f}'
    ||| c == '\u{205f}'
    ||| c == '\u{3000}'
}

/// The records that a `csv::Reader` with default settings yields for a text,
/// each as its fields, or as `None` where the reader reports an error.
pub uninterp spec fn csv_rows(content: Seq<char>) -> Seq<Option<Seq<Seq<char>>>>;

/// Tests whether `c` is white space.
pub fn is_whitespace(c: char) -> (r: bool)
    ensures
        r == white_space(c),
{
    ('\u{9}' <= c && c <= '\u{d}') || c == ' ' || c == '\u{85}' || c == '\u{a0}' || c
        == '\u{1680}' || ('\u{2000}' <= c && c <= '\u{200a}') || c == '\u{2028}' || c
        == '\u{2029}' || c == '\u{202f}' || c == '\u{205f}' || c == '\u{3000}'
}

/// The fields of each row in `rows`, and `None` for a row that is an error.
pub open spec fn rows_view(rows: Seq<Result<Vec<String>, csv::Error>>) -> Seq<
    Option<Seq<Seq<char>>>,
> {
    rows.map_values(
        |row: Result<Vec<String>, csv::Error>|
            match row {
                Ok(fields) => Some(fields@.map_values(|f: String| f@)),
                Err(_) => None,
            },
    )
}

/// The fields of each row in `rows`.
pub open spec fn plain_rows_view(rows: Seq<Option<Vec<String>>>) -> Seq<Option<Seq<Seq<char>>>> {
    rows.map_values(
        |row: Option<Vec<String>>|
            match row {
                Some(fields) => Some(fields@.map_values(|f: String| f@)),
                None => None,
            },
    )
}

/// Makes a `csv::Reader` with `Reader::from_reader` over the text and walks
/// `Reader::records`, copying the fields of each record. The contract claims
/// only that the outcome is fixed by the text.
#[verifier::external_body]
pub(crate) fn read_rows(content: &str) -> (rows: Vec<Result<Vec<String>, csv::Error>>)
    ensures
        rows_view(rows@) == csv_rows(content@),
{
    let mut reader = csv::Reader::from_reader(content.as_bytes());
    reader.records().map(|row| row.map(|fields| fields.iter().map(str::to_owned).collect())).collect()
}

/// `s` without the white space at its start.
pub open spec fn trim_start(s: Seq<char>) -> Seq<char>
    decreases s.len(),
{
    if s.len() > 0 && white_space(s[0]) {
        trim_start(s.drop_first())
    } else {
        s
    }
}

/// `s` without the white space at its end.
pub open spec fn trim_end(s: Seq<char>) -> Seq<char>
    decreases s.len(),
{
    if s.len() > 0 && white_space(s.last()) {
        trim_end(s.drop_last())
    } else {
        s
    }
}

/// `s` without the white space at its start and at its end.
pub open spec fn trimmed(s: Seq<char>) -> Seq<char> {
    trim_end(trim_start(s))
}

/// The name of a friend whose row gives none.
pub open spec fn unnamed() -> Seq<char> {
    "Unknown"@
}

/// The entry for a row's first two fields, or the reason why there is none.
pub open spec fn entry_of(
    display_name: Option<Seq<char>>,
    feed_username: Option<Seq<char>>,
    row: usize,
) -> Result<RosterEntryView, RosterError> {
    match feed_username {
        Some(username) => Ok(
            RosterEntryView {
                display_name: trimmed(
                    match display_name {
                        Some(name) => name,
                        None => unnamed(),
                    },
                ),
                feed_username: trimmed(username),
            },
        ),
        None => Err(RosterError::MissingUsername { row }),
    }
}

/// The field of a row at index `i`, where the row has one.
pub open spec fn field(fields: Seq<Seq<char>>, i: int) -> Option<Seq<char>> {
    if 0 <= i < fields.len() {
        Some(fields[i])
    } else {
        None
    }
}

/// The entry for one row, or the reason why there is none.
pub open spec fn row_entry(row: Option<Seq<Seq<char>>>, index: usize) -> Result<
    RosterEntryView,
    RosterError,
> {
    match row {
        Some(fields) => entry_of(field(fields, 0), field(fields, 1), index),
        None => Err(RosterError::Unreadable { row: index }),
    }
}

/// The roster for the rows: an entry for each row, in order. The first row
/// that gives no entry fails the whole roster.
pub open spec fn roster_of(rows: Seq<Option<Seq<Seq<char>>>>) -> Result<
    Seq<RosterEntryView>,
    RosterError,
>
    decreases rows.len(),
{
    if rows.len() == 0 {
        Ok(Seq::empty())
    } else {
        match roster_of(rows.drop_last()) {
            Ok(entries) => match row_entry(rows.last(), (rows.len() - 1) as usize) {
                Ok(entry) => Ok(entries.push(entry)),
                Err(e) => Err(e),
            },
            Err(e) => Err(e),
        }
    }
}

/// The views of the entries in `entries`.
pub open spec fn entry_views(entries: Seq<RosterEntry>) -> Seq<RosterEntryView> {
    entries.map_values(|e: RosterEntry| e@)
}

/// The address of a friend's feed.
pub open spec fn feed_address(username: Seq<char>) -> Seq<char> {
    "https://"@ + PROVIDER_HOST@ + "/"@ + username + "/rss/"@
}

proof fn lemma_trim_start_skips(s: Seq<char>, a: int)
    requires
        0 <= a <= s.len(),
        forall|i: int| 0 <= i < a ==> white_space(#[trigger] s[i]),
        a < s.len() ==> !white_space(s[a]),
    ensures
        trim_start(s) == s.skip(a),
    decreases a,
{
    if a == 0 {
        assert(s.skip(0) =~= s);
    } else {
        let rest = s.drop_first();
        assert(white_space(s[0]));
        assert forall|i: int| 0 <= i < a - 1 implies white_space(#[trigger] rest[i]) by {
            assert(rest[i] == s[i + 1]);
        }
        lemma_trim_start_skips(rest, a - 1);
        assert(rest.skip(a - 1) =~= s.skip(a));
    }
}

proof fn lemma_trim_end_takes(s: Seq<char>, b: int)
    requires
        0 <= b <= s.len(),
        forall|i: int| b <= i < s.len() ==> white_space(#[trigger] s[i]),
        b > 0 ==> !white_space(s[b - 1]),
    ensures
        trim_end(s) == s.take(b),
    decreases s.len() - b,
{
    if b == s.len() {
        assert(s.take(b) =~= s);
    } else {
        let rest = s.drop_last();
        assert(white_space(s[s.len() - 1]));
        lemma_trim_end_takes(rest, b);
        assert(rest.take(b) =~= s.take(b));
    }
}

/// A copy of `s` without the white space at its start and at its end.
pub fn trim(s: &str) -> (r: String)
    ensures
        r@ == trimmed(s@),
{
    let chars = chars_of(s);
    let n: usize = chars.len();
    let mut a: usize = 0;
    while a < n && is_whitespace(chars[a])
        invariant
            a <= n,
            n == chars@.len(),
            forall|i: int| 0 <= i < a ==> white_space(#[trigger] chars@[i]),
        decreases n - a,
    {
        a += 1;
    }
    let mut b: usize = n;
    while b > a && is_whitespace(chars[b - 1])
        invariant
            a <= b <= n,
            n == chars@.len(),
            forall|i: int| b <= i < n ==> white_space(#[trigger] chars@[i]),
        decreases b,
    {
        b -= 1;
    }
    proof {
        let t = s@.skip(a as int);
        lemma_trim_start_skips(s@, a as int);
        assert forall|i: int| b - a <= i < t.len() implies white_space(#[trigger] t[i]) by {
            assert(t[i] == s@[i + a]);
        }
        lemma_trim_end_takes(t, b - a);
        assert(t.take(b - a) =~= s@.subrange(a as int, b as int));
    }
    slice_of(s, a, b)
}

/// Makes the entry for a row's first two fields. A missing name becomes the
/// name of the unnamed; a missing username is an error.
pub fn roster_entry(display_name: Option<&str>, feed_username: Option<&str>, row: usize) -> (r:
    Result<RosterEntry, RosterError>)
    ensures
        match r {
            Ok(entry) => entry_of(text_of(display_name), text_of(feed_username), row) == Ok::<
                RosterEntryView,
                RosterError,
            >(entry@),
            Err(e) => entry_of(text_of(display_name), text_of(feed_username), row) == Err::<
                RosterEntryView,
                RosterError,
            >(e),
        },
{
    let name = trim(
        match display_name {
            Some(name) => name,
            None => "Unknown",
        },
    );
    match feed_username {
        Some(username) => Ok(RosterEntry { display_name: name, feed_username: trim(username) }),
        None => Err(RosterError::MissingUsername { row }),
    }
}

/// The characters of a text that may be missing.
pub open spec fn text_of(text: Option<&str>) -> Option<Seq<char>> {
    match text {
        Some(s) => Some(s@),
        None => None,
    }
}

/// Makes the roster for rows of fields, where `None` stands for a row that
/// could not be read.
pub fn roster_from_rows(rows: &Vec<Option<Vec<String>>>) -> (r: Result<
    Vec<RosterEntry>,
    RosterError,
>)
    ensures
        match r {
            Ok(entries) => roster_of(plain_rows_view(rows@)) == Ok::<
                Seq<RosterEntryView>,
                RosterError,
            >(entry_views(entries@)),
            Err(e) => roster_of(plain_rows_view(rows@)) == Err::<
                Seq<RosterEntryView>,
                RosterError,
            >(e),
        },
{
    let ghost views = plain_rows_view(rows@);
    let mut entries: Vec<RosterEntry> = Vec::new();
    let n: usize = rows.len();
    let mut i: usize = 0;
    assert(entry_views(entries@) =~= Seq::<RosterEntryView>::empty());
    while i < n
        invariant
            i <= n,
            n == rows@.len(),
            views == plain_rows_view(rows@),
            roster_of(views.take(i as int)) == Ok::<Seq<RosterEntryView>, RosterError>(
                entry_views(entries@),
            ),
        decreases n - i,
    {
        let ghost before = entry_views(entries@);
        assert(views.take(i + 1).drop_last() =~= views.take(i as int));
        assert(views.take(i + 1).last() == views[i as int]);
        let made = match &rows[i] {
            Some(fields) => {
                let name: Option<&str> = if fields.len() > 0 {
                    Some(fields[0].as_str())
                } else {
                    None
                };
                let username: Option<&str> = if fields.len() > 1 {
                    Some(fields[1].as_str())
                } else {
                    None
                };
                roster_entry(name, username, i)
            },
            None => Err(RosterError::Unreadable { row: i }),
        };
        match made {
            Ok(entry) => {
                let ghost v = entry@;
                entries.push(entry);
                assert(entry_views(entries@) =~= before.push(v));
            },
            Err(e) => {
                proof {
                    lemma_roster_fails(views, i as int);
                }
                return Err(e);
            },
        }
        i += 1;
    }
    assert(views.take(n as int) =~= views);
    Ok(entries)
}

/// A roster fails as its first failing row does.
pub proof fn lemma_roster_fails(rows: Seq<Option<Seq<Seq<char>>>>, i: int)
    requires
        0 <= i < rows.len(),
        roster_of(rows.take(i)) is Ok,
        row_entry(rows[i], i as usize) is Err,
    ensures
        roster_of(rows) is Err,
        roster_of(rows)->Err_0 == row_entry(rows[i], i as usize)->Err_0,
    decreases rows.len(),
{
    if i == rows.len() - 1 {
        assert(rows.drop_last() =~= rows.take(i));
    } else {
        assert(rows.drop_last().take(i) =~= rows.take(i));
        lemma_roster_fails(rows.drop_last(), i);
    }
}

/// Turns each row that is an error into `None`.
fn plain_rows(read: Vec<Result<Vec<String>, csv::Error>>) -> (rows: Vec<Option<Vec<String>>>)
    ensures
        plain_rows_view(rows@) == rows_view(read@),
{
    let ghost views = rows_view(read@);
    let mut rows: Vec<Option<Vec<String>>> = Vec::new();
    assert(plain_rows_view(rows@) =~= views.take(0));
    for row in it: read
        invariant
            views == rows_view(it.seq()),
            plain_rows_view(rows@) == views.take(it.index() as int),
    {
        let ghost before = plain_rows_view(rows@);
        let ghost here = views[it.index() as int];
        rows.push(
            match row {
                Ok(fields) => Some(fields),
                Err(_) => None,
            },
        );
        assert(plain_rows_view(rows@) =~= before.push(here));
        assert(views.take(it.index() + 1) =~= views.take(it.index() as int).push(here));
    }
    assert(views.take(views.len() as int) =~= views);
    rows
}

/// Reads the roster from CSV text.
pub fn parse_roster(content: &str) -> (r: Result<Vec<RosterEntry>, RosterError>)
    ensures
        match r {
            Ok(entries) => roster_of(csv_rows(content@)) == Ok::<
                Seq<RosterEntryView>,
                RosterError,
            >(entry_views(entries@)),
            Err(e) => roster_of(csv_rows(content@)) == Err::<Seq<RosterEntryView>, RosterError>(
                e,
            ),
        },
{
    let rows = plain_rows(read_rows(content));
    roster_from_rows(&rows)
}

/// The address of the feed of the friend with the given username.
pub fn feed_url(username: &str) -> (url: String)
    ensures
        url@ == feed_address(username@),
{
    let mut url = "https://".to_owned();
    url.append(PROVIDER_HOST);
    url.append("/");
    url.append(username);
    url.append("/rss/");
    url
}

} // verus!
