use vstd::prelude::*;
use crate::db::message::{compress, compressed, MessageRow};
use crate::text::{append_chars, chars_of, contains_seq, contains_vec, decimal, decimal_of, is_lit, mentions, opt_text, slice_chars, split_on, split_vec, starts_with, string_of, texts_of, trim, trim_vec};
use crate::util::{remove_invalid_chars_from_input, sanitized, timestamp_now};
use crate::web::httpfetcher::{parse_rfc2822, rfc2822_parsed};
use feed_rs::parser::ParseFeedError as PFE;

verus! {

broadcast use vstd::string::group_string_axioms;

/// A media object of a feed entry: the addresses of its contents (scheme, domain where
/// the host is a domain, path) and its description (media type and text).
#[derive(Debug)]
pub struct FeedMedia {
    pub content_urls: Vec<Option<(String, Option<String>, String)>>,
    pub description: Option<(String, String)>,
}

/// An entry of a parsed feed, as the values the application reads of it.
#[derive(Debug)]
pub struct FeedEntry {
    pub id: String,
    pub title: Option<String>,
    /// UNIX timestamp of the last update
    pub updated: Option<i64>,
    pub authors: Vec<String>,
    /// body text and source address of the content
    pub content: Option<(Option<String>, Option<String>)>,
    /// address, relation and media type of each link
    pub links: Vec<(String, Option<String>, Option<String>)>,
    pub summary: Option<String>,
    pub categories: Vec<String>,
    /// UNIX timestamp of the publication
    pub published: Option<i64>,
    pub media: Vec<FeedMedia>,
}

#[verifier::external_type_specification]
#[verifier::external_body]
pub struct ExFeedRsFeed(feed_rs::model::Feed);

/// The values of an entry but its id, by value: title, summary, update and publication
/// times, author names, category terms, content (body, source), links (address,
/// relation, media type) and media objects (content addresses as scheme, domain and
/// path; description as media type and text).
pub type EntryValues = (
    Option<Seq<char>>,
    Option<Seq<char>>,
    Option<i64>,
    Option<i64>,
    Seq<Seq<char>>,
    Seq<Seq<char>>,
    Option<(Option<Seq<char>>, Option<Seq<char>>)>,
    Seq<(Seq<char>, Option<Seq<char>>, Option<Seq<char>>)>,
    Seq<(Seq<Option<(Seq<char>, Option<Seq<char>>, Seq<char>)>>, Option<(Seq<char>, Seq<char>)>)>,
);

/// The values of a feed, by value: those of its entries (but their ids), the time of
/// its last update, its title text, and its links (address, relation, media type).
pub type FeedValues = (Seq<EntryValues>, Option<i64>, Option<Seq<char>>, Seq<(Seq<char>, Option<Seq<char>>, Option<Seq<char>>)>);

/// What `feed_rs::parser::parse` gives for feed bytes: the values of the feed; or its
/// error, as the name of the kind of error and the debug form of what it holds.
pub uninterp spec fn feed_parse_outcome(input: Seq<u8>) -> Result<FeedValues, (Seq<char>, Seq<char>)>;

/// A feed as the parser read it, with the bytes it was read from. Made only by
/// `parse_feed`, so the feed is the one the parser gives for the bytes.
pub struct ParsedFeed {
    input: Vec<u8>,
    feed: feed_rs::model::Feed,
}

impl ParsedFeed {
    /// The bytes the feed was read from.
    pub closed spec fn source(&self) -> Seq<u8> {
        self.input@
    }
}

/// The values the parser gives for the feed read from `pf_input`.
pub open spec fn parsed_feed(pf_input: Seq<u8>) -> FeedValues {
    feed_parse_outcome(pf_input)->Ok_0
}

/// Parses a feed (`feed_rs::parser::parse`) and keeps it with the bytes; on failure the
/// kind of error and the debug form of what it holds. Named by `feed_parse_outcome`.
#[verifier::external_body]
pub(crate) fn parse_feed(input: &[u8]) -> (r: Result<ParsedFeed, (String, String)>)
    ensures
        match r {
            Ok(pf) => pf.source() == input@ && feed_parse_outcome(input@) is Ok,
            Err((kind, detail)) => feed_parse_outcome(input@) == Err::<FeedValues, (Seq<char>, Seq<char>)>((kind@, detail@)),
        },
{
    match feed_rs::parser::parse(input) {
        Ok(feed) => Ok(ParsedFeed { input: input.to_vec(), feed }),
        Err(PFE::ParseError(ref kind)) => Err(("ParseError".to_string(), format!("{kind:?}"))),
        Err(PFE::IoError(ref ioe)) => Err(("IoError".to_string(), format!("{ioe:?}"))),
        Err(PFE::JsonSerde(ref serde_e)) => Err(("JsonSerde".to_string(), format!("{serde_e:?}"))),
        Err(PFE::JsonUnsupportedVersion(ref s)) => Err(("JsonUnsupportedVersion".to_string(), format!("{s:?}"))),
        Err(PFE::XmlReader(ref xml_e)) => Err(("XmlReader".to_string(), format!("{xml_e:?}"))),
    }
}

/// The number of entries of a parsed feed, the time of its last update as a UNIX
/// timestamp, its title text, and its links (address, relation, media type).
#[verifier::external_body]
pub(crate) fn feed_summary(pf: &ParsedFeed) -> (r: (usize, Option<i64>, Option<String>, Vec<(String, Option<String>, Option<String>)>))
    ensures
        r.0 == parsed_feed(pf.source()).0.len(),
        r.1 == parsed_feed(pf.source()).1,
        opt_text(r.2) == parsed_feed(pf.source()).2,
        link_values(r.3@) == parsed_feed(pf.source()).3,
{
    let f = &pf.feed;
    (f.entries.len(), f.updated.map(|d| d.timestamp()), f.title.as_ref().map(|t| t.content.clone()),
        f.links.iter().map(|l| (l.href.clone(), l.rel.clone(), l.media_type.clone())).collect())
}

/// The error text of a feed that does not parse: the kind of error and what it holds,
/// two more spaces after an XML error.
pub open spec fn parse_detail(kind: Seq<char>, detail: Seq<char>) -> Seq<char> {
    if kind == "XmlReader"@ { kind + " "@ + detail + "  "@ } else { kind + " "@ + detail }
}

/// Content by value.
pub open spec fn content_values(c: Option<(Option<String>, Option<String>)>) -> Option<(Option<Seq<char>>, Option<Seq<char>>)> {
    match c {
        Some((b, src)) => Some((opt_text(b), opt_text(src))),
        None => None,
    }
}

/// Links by value.
pub open spec fn link_values(v: Seq<(String, Option<String>, Option<String>)>) -> Seq<(Seq<char>, Option<Seq<char>>, Option<Seq<char>>)> {
    v.map_values(|l: (String, Option<String>, Option<String>)| (l.0@, opt_text(l.1), opt_text(l.2)))
}

/// A media content address by value.
pub open spec fn url_value(u: Option<(String, Option<String>, String)>) -> Option<(Seq<char>, Option<Seq<char>>, Seq<char>)> {
    match u {
        Some((sc, d, pa)) => Some((sc@, opt_text(d), pa@)),
        None => None,
    }
}

/// Media objects by value.
pub open spec fn media_values(v: Seq<FeedMedia>) -> Seq<(Seq<Option<(Seq<char>, Option<Seq<char>>, Seq<char>)>>, Option<(Seq<char>, Seq<char>)>)> {
    v.map_values(|m: FeedMedia| (
        m.content_urls@.map_values(|u: Option<(String, Option<String>, String)>| url_value(u)),
        match m.description {
            Some((t, c)) => Some((t@, c@)),
            None => None,
        },
    ))
}

/// The values of an entry but its id.
pub open spec fn values_of(e: FeedEntry) -> EntryValues {
    (opt_text(e.title), opt_text(e.summary), e.updated, e.published, texts_of(e.authors@), texts_of(e.categories@),
        content_values(e.content), link_values(e.links@), media_values(e.media@))
}

/// The values of entries but their ids.
pub open spec fn all_values(es: Seq<FeedEntry>) -> Seq<EntryValues> {
    es.map_values(|e: FeedEntry| values_of(e))
}

/// The values the parser gives for entry `i` of the feed read from `pf_input`.
pub open spec fn parsed_values(pf_input: Seq<u8>, i: int) -> EntryValues {
    parsed_feed(pf_input).0[i]
}

/// The id, the title text and the summary text of entry `i`. The parser makes up a random
/// id for an entry without one, so nothing is claimed of the id.
#[verifier::external_body]
fn entry_texts(pf: &ParsedFeed, i: usize) -> (r: (String, Option<String>, Option<String>))
    requires
        i < parsed_feed(pf.source()).0.len(),
    ensures
        opt_text(r.1) == parsed_values(pf.source(), i as int).0,
        opt_text(r.2) == parsed_values(pf.source(), i as int).1,
{
    let e = &pf.feed.entries[i];
    (e.id.clone(), e.title.as_ref().map(|t| t.content.clone()), e.summary.as_ref().map(|t| t.content.clone()))
}

/// The update and publication times of entry `i` as UNIX timestamps.
#[verifier::external_body]
fn entry_times(pf: &ParsedFeed, i: usize) -> (r: (Option<i64>, Option<i64>))
    requires
        i < parsed_feed(pf.source()).0.len(),
    ensures
        r.0 == parsed_values(pf.source(), i as int).2,
        r.1 == parsed_values(pf.source(), i as int).3,
{
    let e = &pf.feed.entries[i];
    (e.updated.map(|d| d.timestamp()), e.published.map(|d| d.timestamp()))
}

/// The author names and category terms of entry `i`.
#[verifier::external_body]
fn entry_people(pf: &ParsedFeed, i: usize) -> (r: (Vec<String>, Vec<String>))
    requires
        i < parsed_feed(pf.source()).0.len(),
    ensures
        texts_of(r.0@) == parsed_values(pf.source(), i as int).4,
        texts_of(r.1@) == parsed_values(pf.source(), i as int).5,
{
    let e = &pf.feed.entries[i];
    (e.authors.iter().map(|a| a.name.clone()).collect(), e.categories.iter().map(|c| c.term.clone()).collect())
}

/// The content body and source address of entry `i`.
#[verifier::external_body]
fn entry_content(pf: &ParsedFeed, i: usize) -> (r: Option<(Option<String>, Option<String>)>)
    requires
        i < parsed_feed(pf.source()).0.len(),
    ensures
        content_values(r) == parsed_values(pf.source(), i as int).6,
{
    pf.feed.entries[i].content.as_ref().map(|c| (c.body.clone(), c.src.as_ref().map(|l| l.href.clone())))
}

/// The links (address, relation, media type) of entry `i`.
#[verifier::external_body]
fn entry_links(pf: &ParsedFeed, i: usize) -> (r: Vec<(String, Option<String>, Option<String>)>)
    requires
        i < parsed_feed(pf.source()).0.len(),
    ensures
        link_values(r@) == parsed_values(pf.source(), i as int).7,
{
    pf.feed.entries[i].links.iter().map(|l| (l.href.clone(), l.rel.clone(), l.media_type.clone())).collect()
}

/// The media objects of entry `i`: for each, the scheme, domain and path of its content
/// addresses, and its description's media type and text.
#[verifier::external_body]
fn entry_media(pf: &ParsedFeed, i: usize) -> (r: Vec<FeedMedia>)
    requires
        i < parsed_feed(pf.source()).0.len(),
    ensures
        media_values(r@) == parsed_values(pf.source(), i as int).8,
{
    pf.feed.entries[i].media.iter().map(|m| FeedMedia {
        content_urls: m.content.iter().map(|c| c.url.as_ref().map(|u| (u.scheme().to_string(), u.domain().map(|d| d.to_string()), u.path().to_string()))).collect(),
        description: m.description.as_ref().map(|t| (t.content_type.to_string(), t.content.clone())),
    }).collect()
}

/// The values of entry `i`.
fn feed_entry_of(pf: &ParsedFeed, i: usize) -> (r: FeedEntry)
    requires
        i < parsed_feed(pf.source()).0.len(),
    ensures
        values_of(r) == parsed_values(pf.source(), i as int),
{
    let (id, title, summary) = entry_texts(pf, i);
    let (updated, published) = entry_times(pf, i);
    let (authors, categories) = entry_people(pf, i);
    let r = FeedEntry {
        id,
        title,
        updated,
        authors,
        content: entry_content(pf, i),
        links: entry_links(pf, i),
        summary,
        categories,
        published,
        media: entry_media(pf, i),
    };
    r
}

/// Parses a feed into the values of its entries (see `FeedEntry`) and the time of the
/// feed's last update; or the parser's error text (see `parse_detail`). The entries hold
/// what the parser gives (see `feed_parse_outcome`), each with the id it gives.
pub fn parse_feed_entries(input: &[u8]) -> (r: Result<(Vec<FeedEntry>, Option<i64>), String>)
    ensures
        match r {
            Ok((v, updated)) => feed_parse_outcome(input@) is Ok
                && all_values(v@) == parsed_feed(input@).0 && updated == parsed_feed(input@).1,
            Err(e) => feed_parse_outcome(input@) matches Err((kind, detail)) && e@ == parse_detail(kind, detail),
        },
{
    match parse_feed(input) {
        Ok(pf) => {
            let ghost es = parsed_feed(input@).0;
            let (n, updated, _title, _links) = feed_summary(&pf);
            let mut v: Vec<FeedEntry> = Vec::new();
            let mut i: usize = 0;
            while i < n
                invariant
                    n == es.len(),
                    pf.source() == input@,
                    es == parsed_feed(input@).0,
                    i <= n,
                    v@.len() == i,
                    forall|k: int| 0 <= k < i ==> values_of(#[trigger] v@[k]) == es[k],
                decreases n - i,
            {
                v.push(feed_entry_of(&pf, i));
                i = i + 1;
            }
            proof {
                assert(all_values(v@) =~= es);
            }
            Ok((v, updated))
        },
        Err((kind, detail)) => {
            proof {
                reveal_strlit("XmlReader");
            }
            let mut e = chars_of(kind.as_str());
            append_chars(&mut e, &chars_of(" "));
            append_chars(&mut e, &chars_of(detail.as_str()));
            if is_lit(kind.as_str(), "XmlReader") {
                append_chars(&mut e, &chars_of("  "));
            }
            Err(string_of(&e))
        },
    }
}

/// A link that can be the message's link: not of an XML media type, and not of relation
/// `replies`.
pub open spec fn link_kept(l: (String, Option<String>, Option<String>)) -> bool {
    &&& !(l.2 matches Some(t) && contains_seq(t@, "xml"@))
    &&& !(l.1 matches Some(r) && contains_seq(r@, "replies"@))
}

/// The address of the first link that can be the message's link.
pub open spec fn first_kept_link(links: Seq<(String, Option<String>, Option<String>)>) -> Option<Seq<char>>
    decreases links.len(),
{
    if links.len() == 0 {
        None
    } else if link_kept(links[0]) {
        Some(links[0].0@)
    } else {
        first_kept_link(links.skip(1))
    }
}

/// The enclosure after going through media content addresses: each with a domain
/// replaces it by `scheme://domain/path`.
pub open spec fn urls_enclosure(urls: Seq<Option<(String, Option<String>, String)>>, init: Seq<char>) -> Seq<char>
    decreases urls.len(),
{
    if urls.len() == 0 {
        init
    } else {
        let prev = urls_enclosure(urls.drop_last(), init);
        match urls.last() {
            Some((sc, Some(d), pa)) => sc@ + "://"@ + d@ + pa@,
            _ => prev,
        }
    }
}

/// The enclosure after going through all media objects in order.
pub open spec fn media_enclosure(media: Seq<FeedMedia>, init: Seq<char>) -> Seq<char>
    decreases media.len(),
{
    if media.len() == 0 {
        init
    } else {
        urls_enclosure(media.last().content_urls@, media_enclosure(media.drop_last(), init))
    }
}

/// The content text after going through the media objects in order: while it is empty,
/// a description of a `text` media type takes its place.
pub open spec fn media_text(media: Seq<FeedMedia>, init: Seq<char>) -> Seq<char>
    decreases media.len(),
{
    if media.len() == 0 {
        init
    } else {
        let prev = media_text(media.drop_last(), init);
        if prev.len() == 0 && (media.last().description matches Some((t, c)) && starts_with(t@, "text"@)) {
            media.last().description.unwrap().1@
        } else {
            prev
        }
    }
}

/// Texts joined by `, `.
pub open spec fn joined(parts: Seq<Seq<char>>) -> Seq<char>
    decreases parts.len(),
{
    if parts.len() == 0 {
        Seq::empty()
    } else if parts.len() == 1 {
        parts[0]
    } else {
        joined(parts.drop_last()) + ", "@ + parts.last()
    }
}

/// The author names that are not just `author`, cleaned (see `sanitized`).
pub open spec fn author_names(authors: Seq<String>) -> Seq<Seq<char>>
    decreases authors.len(),
{
    if authors.len() == 0 {
        Seq::empty()
    } else {
        let rest = author_names(authors.drop_last());
        if authors.last()@ != "author"@ { rest.push(sanitized(authors.last()@)) } else { rest }
    }
}

/// The category terms, cleaned (see `sanitized`).
pub open spec fn category_names(cats: Seq<String>) -> Seq<Seq<char>> {
    cats.map_values(|c: String| sanitized(c@))
}

/// The content text of a message: the content body, else a non-empty summary, else the
/// first text description of a media object.
pub open spec fn message_text(me: FeedEntry) -> Seq<char> {
    let c0 = match me.summary {
        Some(s) => s@,
        None => Seq::empty(),
    };
    let c1 = match me.content {
        Some((Some(b), _)) => b@,
        _ => c0,
    };
    media_text(me.media@, c1)
}

/// The enclosure of a message: the last media content address with a domain, else the
/// source of the content.
pub open spec fn message_enclosure(me: FeedEntry) -> Seq<char> {
    let e0 = match me.content {
        Some((_, Some(h))) => h@,
        _ => Seq::empty(),
    };
    media_enclosure(me.media@, e0)
}

/// The publication time of an entry as a message has it: the publication time, else the
/// update time, else 0.
pub open spec fn message_date(me: FeedEntry) -> i64 {
    match me.published {
        Some(p) => p,
        None => match me.updated {
            Some(u) => u,
            None => 0,
        },
    }
}

/// The link of a message: the first link that can be one, else empty.
pub open spec fn message_link(me: FeedEntry) -> Seq<char> {
    match first_kept_link(me.links@) {
        Some(l) => l,
        None => Seq::empty(),
    }
}

/// The title of a message: the cleaned and trimmed title, else the entry id.
pub open spec fn message_title(me: FeedEntry) -> Seq<char> {
    match me.title {
        Some(t) => trim(sanitized(t@)),
        None => me.id@,
    }
}

/// The message made of a feed entry, but for its fetch time: id -1, the publication time
/// (see `message_date`; marked as invalid where the entry has none), the link (see
/// `message_link`), the text and enclosure (see `message_text` and
/// `message_enclosure`), the entry id as post id, the title (see `message_title`), the
/// cleaned authors and categories joined by `, `.
pub open spec fn message_of(me: FeedEntry, m: MessageRow) -> bool {
    &&& m.message_id == -1 && m.subscription_id == 0 && !m.is_deleted && !m.is_read && m.markers == 0
    &&& m.title_d is None
    &&& m.entry_src_date == message_date(me)
    &&& m.entry_invalid_pubdate == me.published is None
    &&& m.link@ == message_link(me)
    &&& m.content_text@ == message_text(me)
    &&& m.enclosure_url@ == message_enclosure(me)
    &&& m.post_id@ == me.id@
    &&& m.title@ == message_title(me)
    &&& m.author@ == joined(author_names(me.authors@))
    &&& m.categories@ == joined(category_names(me.categories@))
}

/// A message of an entry that has a publication time is dated by that time, whatever
/// the update time, and its date counts as valid; the update time dates only an entry
/// without a publication time, and that date counts as invalid.
pub proof fn lemma_message_dated_by_publication(me: FeedEntry, m: MessageRow)
    requires
        message_of(me, m),
    ensures
        me.published matches Some(p) ==> m.entry_src_date == p && !m.entry_invalid_pubdate,
        me.published is None ==> (me.updated matches Some(u) ==> m.entry_src_date == u && m.entry_invalid_pubdate),
        me.published is None && me.updated is None ==> m.entry_src_date == 0 && m.entry_invalid_pubdate,
{
}

/// A media description is taken only where no text came before it.
proof fn lemma_media_text_keeps_text(media: Seq<FeedMedia>, init: Seq<char>)
    requires
        init.len() > 0,
    ensures
        media_text(media, init) == init,
    decreases media.len(),
{
    if media.len() > 0 {
        lemma_media_text_keeps_text(media.drop_last(), init);
    }
}

/// The text of a message is the entry's content body where it has a non-empty one,
/// whatever its summary and media say; and its title is the entry id where the entry has
/// no title.
pub proof fn lemma_message_text_and_title(me: FeedEntry, m: MessageRow)
    requires
        message_of(me, m),
    ensures
        me.content matches Some((Some(b), _)) ==> (b@.len() > 0 ==> m.content_text@ == b@),
        me.title is None ==> m.title@ == me.id@,
        m.post_id@ == me.id@,
{
    match me.content {
        Some((Some(b), _)) => {
            if b@.len() > 0 {
                lemma_media_text_keeps_text(me.media@, b@);
            }
        },
        _ => {},
    }
}

/// The same holds of a message as it is stored for a subscription.
pub proof fn lemma_stored_message_dated_by_publication(me: FeedEntry, id: isize, m: MessageRow)
    requires
        stored_message_of(me, id, m),
    ensures
        me.published matches Some(p) ==> m.entry_src_date == p && !m.entry_invalid_pubdate,
        me.published is None ==> (me.updated matches Some(u) ==> m.entry_src_date == u && m.entry_invalid_pubdate),
        me.published is None && me.updated is None ==> m.entry_src_date == 0 && m.entry_invalid_pubdate,
{
}

/// The message of a feed entry as it is stored for a subscription, but for its fetch
/// time: as `message_of` has it, of the subscription, with title, text, authors and
/// categories compressed.
pub open spec fn stored_message_of(me: FeedEntry, source_repo_id: isize, m: MessageRow) -> bool {
    &&& m.message_id == -1 && m.subscription_id == source_repo_id && !m.is_deleted && !m.is_read
    &&& m.markers == 0 && m.title_d is None
    &&& m.entry_src_date == message_date(me)
    &&& m.entry_invalid_pubdate == me.published is None
    &&& m.link@ == message_link(me)
    &&& m.content_text@ == compressed(message_text(me))
    &&& m.enclosure_url@ == message_enclosure(me)
    &&& m.post_id@ == me.id@
    &&& m.title@ == compressed(message_title(me))
    &&& m.author@ == compressed(joined(author_names(me.authors@)))
    &&& m.categories@ == compressed(joined(category_names(me.categories@)))
}

/// The error texts of converting the entries, one after the other.
pub open spec fn entry_errors(es: Seq<FeedEntry>) -> Seq<char>
    decreases es.len(),
{
    if es.len() == 0 {
        Seq::empty()
    } else {
        entry_errors(es.drop_last()) + message_error(es.last())
    }
}

/// The error text of converting an entry: that it has no title, else nothing.
pub open spec fn message_error(me: FeedEntry) -> Seq<char> {
    if me.title is None { "Message ID "@ + me.id@ + " has no valid title."@ } else { Seq::empty() }
}

/// Joins texts by `, `.
fn join_texts(parts: &Vec<Vec<char>>) -> (r: Vec<char>)
    ensures
        r@ == joined(parts@.map_values(|p: Vec<char>| p@)),
{
    let ghost pv = parts@.map_values(|p: Vec<char>| p@);
    let mut r: Vec<char> = Vec::new();
    let mut i: usize = 0;
    proof {
        assert(pv.take(0) =~= Seq::<Seq<char>>::empty());
    }
    while i < parts.len()
        invariant
            i <= parts@.len(),
            pv == parts@.map_values(|p: Vec<char>| p@),
            r@ == joined(pv.take(i as int)),
        decreases parts.len() - i,
    {
        proof {
            assert(pv.take(i + 1).drop_last() =~= pv.take(i as int));
            assert(pv.take(i + 1).last() == parts@[i as int]@);
        }
        if i > 0 {
            append_chars(&mut r, &chars_of(", "));
        }
        append_chars(&mut r, &parts[i]);
        proof {
            if i == 0 {
                assert(r@ =~= pv.take(1)[0]);
            }
        }
        i = i + 1;
    }
    proof {
        assert(pv.take(i as int) =~= pv);
    }
    r
}

/// The address of the first link that is neither of an XML media type nor of relation
/// `replies`; empty where there is none.
fn first_link(links: &Vec<(String, Option<String>, Option<String>)>) -> (r: String)
    ensures
        r@ == match first_kept_link(links@) {
            Some(l) => l,
            None => Seq::<char>::empty(),
        },
{
    let mut li: usize = 0;
    proof {
        assert(links@.skip(0) =~= links@);
    }
    while li < links.len()
        invariant
            li <= links@.len(),
            first_kept_link(links@) == first_kept_link(links@.skip(li as int)),
        decreases links.len() - li,
    {
        let l = &links[li];
        proof {
            reveal_strlit("xml");
            reveal_strlit("replies");
            assert(links@.skip(li as int).skip(1) =~= links@.skip(li + 1));
            assert(links@.skip(li as int)[0] == *l);
        }
        let xml_type = match &l.2 {
            Some(t) => mentions(t, "xml"),
            None => false,
        };
        let replies = match &l.1 {
            Some(rl) => mentions(rl, "replies"),
            None => false,
        };
        if !xml_type && !replies {
            return l.0.clone();
        }
        li = li + 1;
    }
    proof {
        assert(links@.skip(li as int) =~= Seq::<(String, Option<String>, Option<String>)>::empty());
    }
    String::new()
}

/// Goes through the content addresses of a media object: each with a domain makes the
/// enclosure `scheme://domain/path`.
fn urls_fold(urls: &Vec<Option<(String, Option<String>, String)>>, init: String) -> (r: String)
    ensures
        r@ == urls_enclosure(urls@, init@),
{
    let mut enc = init;
    let ghost start = enc@;
    let mut ci: usize = 0;
    proof {
        assert(urls@.take(0) =~= Seq::<Option<(String, Option<String>, String)>>::empty());
    }
    while ci < urls.len()
        invariant
            ci <= urls@.len(),
            enc@ == urls_enclosure(urls@.take(ci as int), start),
        decreases urls.len() - ci,
    {
        proof {
            assert(urls@.take(ci + 1).drop_last() =~= urls@.take(ci as int));
            assert(urls@.take(ci + 1).last() == urls@[ci as int]);
        }
        if let Some((scheme, Some(domain), path)) = &urls[ci] {
            let mut u = chars_of(scheme.as_str());
            append_chars(&mut u, &chars_of("://"));
            append_chars(&mut u, &chars_of(domain.as_str()));
            append_chars(&mut u, &chars_of(path.as_str()));
            enc = string_of(&u);
        }
        ci = ci + 1;
    }
    proof {
        assert(urls@.take(ci as int) =~= urls@);
    }
    enc
}

/// Goes through the media objects in order: their content addresses make the
/// enclosure (see `urls_fold`), and while the text is empty a description of a `text`
/// media type takes its place.
fn media_fold(media: &Vec<FeedMedia>, text: String, enc: String) -> (r: (String, String))
    ensures
        r.0@ == media_text(media@, text@),
        r.1@ == media_enclosure(media@, enc@),
{
    let ghost t0 = text@;
    let ghost e0 = enc@;
    let mut text = text;
    let mut enc = enc;
    let mut mi: usize = 0;
    proof {
        assert(media@.take(0) =~= Seq::<FeedMedia>::empty());
    }
    while mi < media.len()
        invariant
            mi <= media@.len(),
            text@ == media_text(media@.take(mi as int), t0),
            enc@ == media_enclosure(media@.take(mi as int), e0),
        decreases media.len() - mi,
    {
        let m = &media[mi];
        proof {
            assert(media@.take(mi + 1).drop_last() =~= media@.take(mi as int));
            assert(media@.take(mi + 1).last() == *m);
        }
        enc = urls_fold(&m.content_urls, enc);
        if chars_of(text.as_str()).len() == 0 {
            if let Some((ctype, desc)) = &m.description {
                proof {
                    reveal_strlit("text");
                }
                let ct = chars_of(ctype.as_str());
                let tx = chars_of("text");
                proof {
                    assert(ct@.skip(0) =~= ct@);
                }
                if crate::text::matches_at(&ct, 0, &tx) {
                    text = desc.clone();
                }
            }
        }
        mi = mi + 1;
    }
    proof {
        assert(media@.take(mi as int) =~= media@);
    }
    (text, enc)
}

/// The author names that are not just `author`, cleaned, joined by `, `.
fn author_list(authors: &Vec<String>) -> (r: String)
    ensures
        r@ == joined(author_names(authors@)),
{
    let mut names: Vec<Vec<char>> = Vec::new();
    let mut ai: usize = 0;
    proof {
        assert(authors@.take(0) =~= Seq::<String>::empty());
        assert(names@.map_values(|p: Vec<char>| p@) =~= Seq::<Seq<char>>::empty());
    }
    while ai < authors.len()
        invariant
            ai <= authors@.len(),
            names@.map_values(|p: Vec<char>| p@) == author_names(authors@.take(ai as int)),
        decreases authors.len() - ai,
    {
        proof {
            assert(authors@.take(ai + 1).drop_last() =~= authors@.take(ai as int));
            assert(authors@.take(ai + 1).last() == authors@[ai as int]);
        }
        let a = &authors[ai];
        let ghost n0 = names@.map_values(|p: Vec<char>| p@);
        if !is_lit(a, "author") {
            let c = remove_invalid_chars_from_input(a.clone());
            names.push(chars_of(c.as_str()));
            proof {
                assert(names@.map_values(|p: Vec<char>| p@) =~= n0.push(sanitized(a@)));
            }
        }
        ai = ai + 1;
    }
    proof {
        assert(authors@.take(ai as int) =~= authors@);
    }
    string_of(&join_texts(&names))
}

/// The category terms, cleaned, joined by `, `.
fn category_list(cats: &Vec<String>) -> (r: String)
    ensures
        r@ == joined(category_names(cats@)),
{
    let mut names: Vec<Vec<char>> = Vec::new();
    let mut ki: usize = 0;
    proof {
        assert(names@.map_values(|p: Vec<char>| p@) =~= category_names(cats@.take(0)));
    }
    while ki < cats.len()
        invariant
            ki <= cats@.len(),
            names@.map_values(|p: Vec<char>| p@) == category_names(cats@.take(ki as int)),
        decreases cats.len() - ki,
    {
        let ghost n0 = names@.map_values(|p: Vec<char>| p@);
        let c = remove_invalid_chars_from_input(cats[ki].clone());
        names.push(chars_of(c.as_str()));
        proof {
            assert(cats@.take(ki + 1) =~= cats@.take(ki as int).push(cats@[ki as int]));
            assert(names@.map_values(|p: Vec<char>| p@) =~= n0.push(sanitized(cats@[ki as int]@)));
            assert(category_names(cats@.take(ki + 1)) =~= n0.push(sanitized(cats@[ki as int]@)));
        }
        ki = ki + 1;
    }
    proof {
        assert(cats@.take(ki as int) =~= cats@);
    }
    string_of(&join_texts(&names))
}

/// Turns a feed entry into a message (see `message_of`), fetched now; and the error
/// text (see `message_error`).
pub fn message_from_modelentry(me: &FeedEntry) -> (r: (MessageRow, String))
    ensures
        message_of(*me, r.0),
        r.1@ == message_error(*me),
        me.published matches Some(p) ==> r.0.entry_src_date == p && !r.0.entry_invalid_pubdate,
        me.published is None ==> r.0.entry_invalid_pubdate && r.0.entry_src_date == match me.updated {
            Some(u) => u,
            None => 0i64,
        },
{
    let entry_src_date = match me.published {
        Some(p) => p,
        None => match me.updated {
            Some(u) => u,
            None => 0,
        },
    };
    let link = first_link(&me.links);
    let mut text = String::new();
    if let Some(summary) = &me.summary {
        if chars_of(summary.as_str()).len() > 0 {
            text = summary.clone();
        } else {
            proof {
                assert(summary@ =~= text@);
            }
        }
    }
    let mut enc = String::new();
    if let Some((body, src)) = &me.content {
        if let Some(b) = body {
            text = b.clone();
        }
        if let Some(e) = src {
            enc = e.clone();
        }
    }
    let (content_text, enclosure_url) = media_fold(&me.media, text, enc);
    let mut error_text = String::new();
    let title = match &me.title {
        Some(t) => {
            let filtered = remove_invalid_chars_from_input(t.clone());
            string_of(&trim_vec(&chars_of(filtered.as_str())))
        },
        None => {
            let mut e = chars_of("Message ID ");
            append_chars(&mut e, &chars_of(me.id.as_str()));
            append_chars(&mut e, &chars_of(" has no valid title."));
            error_text = string_of(&e);
            me.id.clone()
        },
    };
    let msg = MessageRow {
        message_id: -1,
        subscription_id: 0,
        title,
        post_id: me.id.clone(),
        link,
        is_deleted: false,
        is_read: false,
        fetch_date: timestamp_now(),
        entry_src_date,
        entry_invalid_pubdate: me.published.is_none(),
        content_text,
        enclosure_url,
        author: author_list(&me.authors),
        categories: category_list(&me.categories),
        markers: 0,
        title_d: None,
    };
    proof {
        reveal_strlit("Message ID ");
        reveal_strlit(" has no valid title.");
    }
    (msg, error_text)
}

/// Turns feed entries into the messages stored for a subscription (see
/// `stored_message_of`), fetched now; and their error texts one after the other.
pub fn messages_from_entries(entries: &Vec<FeedEntry>, source_repo_id: isize) -> (r: (Vec<MessageRow>, String))
    ensures
        r.0@.len() == entries@.len(),
        forall|i: int| 0 <= i < entries@.len() ==> stored_message_of(#[trigger] entries@[i], source_repo_id, r.0@[i]),
        forall|i: int| 0 <= i < entries@.len() ==> ((#[trigger] entries@[i]).published matches Some(p)
            ==> r.0@[i].entry_src_date == p),
        r.1@ == entry_errors(entries@),
{
    let mut list: Vec<MessageRow> = Vec::new();
    let mut errors: Vec<char> = Vec::new();
    let mut i: usize = 0;
    proof {
        assert(entries@.take(0) =~= Seq::<FeedEntry>::empty());
    }
    while i < entries.len()
        invariant
            i <= entries@.len(),
            list@.len() == i,
            forall|k: int| 0 <= k < i ==> stored_message_of(#[trigger] entries@[k], source_repo_id, list@[k]),
            errors@ == entry_errors(entries@.take(i as int)),
        decreases entries.len() - i,
    {
        proof {
            assert(entries@.take(i + 1).drop_last() =~= entries@.take(i as int));
            assert(entries@.take(i + 1).last() == entries@[i as int]);
        }
        let (mut fce, err_t) = message_from_modelentry(&entries[i]);
        fce.subscription_id = source_repo_id;
        fce.title = compress(fce.title.as_str());
        fce.content_text = compress(fce.content_text.as_str());
        fce.categories = compress(fce.categories.as_str());
        fce.author = compress(fce.author.as_str());
        list.push(fce);
        append_chars(&mut errors, &chars_of(err_t.as_str()));
        i = i + 1;
    }
    proof {
        assert(entries@.take(i as int) =~= entries@);
    }
    (list, string_of(&errors))
}

/// The error text of a feed that does not parse: the address, the length of the text in
/// bytes and the parser's error.
pub open spec fn parse_error_text(url: Seq<char>, len: nat, detail: Seq<char>) -> Seq<char> {
    "Parsing: "@ + url + "  length="@ + decimal(len) + "   "@ + detail
}

/// Parses feed text into the messages stored for the subscription `source_repo_id`, the
/// time the feed was last updated (0 where it has none) and the error texts.
///
/// Where the parser takes the text, there is one message for each of its entries, made of
/// the entry's values (see `messages_from_entries`; the id is the one the parser gives),
/// and the error texts of the entries. Where it refuses the text, there are no messages,
/// the time is 0 and the error text names the address, the length and the parser's error
/// (see `parse_error_text`).
pub fn feed_text_to_entries(text: String, source_repo_id: isize, url: String) -> (r: (Vec<MessageRow>, i64, String))
    ensures
        match feed_parse_outcome(vstd::utf8::encode_utf8(text@)) {
            Ok((vals, updated, _, _)) => {
                &&& r.0@.len() == vals.len()
                &&& r.1 == match updated {
                    Some(t) => t,
                    None => 0,
                }
                &&& exists|es: Seq<FeedEntry>| {
                    &&& #[trigger] all_values(es) == vals
                    &&& forall|i: int| 0 <= i < vals.len() ==> stored_message_of(#[trigger] es[i], source_repo_id, r.0@[i])
                    &&& r.2@ == entry_errors(es)
                }
            },
            Err((kind, detail)) => {
                &&& r.0@.len() == 0
                &&& r.1 == 0
                &&& r.2@ == parse_error_text(url@, vstd::utf8::encode_utf8(text@).len(), parse_detail(kind, detail))
            },
        },
{
    let bytes = text.as_str().as_bytes();
    match parse_feed_entries(bytes) {
        Ok((entries, updated)) => {
            let (list, err_text) = messages_from_entries(&entries, source_repo_id);
            let created_ts: i64 = match updated {
                Some(t) => t,
                None => 0,
            };
            (list, created_ts, err_text)
        },
        Err(detail) => {
            let mut e = chars_of("Parsing: ");
            append_chars(&mut e, &chars_of(url.as_str()));
            append_chars(&mut e, &chars_of("  length="));
            append_chars(&mut e, &decimal_of(bytes.len() as u64));
            append_chars(&mut e, &chars_of("   "));
            append_chars(&mut e, &chars_of(detail.as_str()));
            (Vec::new(), 0, string_of(&e))
        },
    }
}

/// What a regular expression replaces: the first match of `pattern` in `haystack`
/// replaced by `rep` (with `$1` and the like for groups), or `None` where the pattern
/// does not compile.
pub uninterp spec fn regex_replaced_first(pattern: Seq<char>, haystack: Seq<char>, rep: Seq<char>) -> Option<Seq<char>>;

/// Replaces the first match of a regular expression: `regex::Regex::new` on the
/// pattern, then `Regex::replace`. The result is named by `regex_replaced_first`.
#[verifier::external_body]
fn regex_replace_first(pattern: &str, haystack: &str, rep: &str) -> (r: Option<String>)
    ensures
        opt_text(r) == regex_replaced_first(pattern@, haystack@, rep@),
{
    match regex::Regex::new(pattern) {
        Ok(re) => Some(re.replace(haystack, rep).into_owned()),
        Err(_) => None,
    }
}

/// The date that a line of feed text holds in a `<pubDate>` element: where the line
/// mentions `<pubDate>` and, trimmed, begins with `<pubDate>` and ends with
/// `</pubDate>`, what stands between them.
pub open spec fn line_date(line: Seq<char>) -> Option<Seq<char>> {
    let t = trim(line);
    let rest = t.skip("<pubDate>"@.len() as int);
    if contains_seq(line, "<pubDate>"@) && starts_with(t, "<pubDate>"@) && rest.len() >= "</pubDate>"@.len()
        && rest.subrange(rest.len() - "</pubDate>"@.len(), rest.len() as int) == "</pubDate>"@ {
        Some(rest.take(rest.len() - "</pubDate>"@.len()))
    } else {
        None
    }
}

/// The dates of the lines that hold one, in order.
pub open spec fn lines_dates(lines: Seq<Seq<char>>) -> Seq<Seq<char>>
    decreases lines.len(),
{
    if lines.len() == 0 {
        Seq::empty()
    } else {
        let rest = lines_dates(lines.drop_last());
        match line_date(lines.last()) {
            Some(d) => rest.push(d),
            None => rest,
        }
    }
}

/// The `<pubDate>` dates of a feed text, line by line in order. (A line's `\r` before its
/// `\n` is white space, which trimming takes off.)
pub open spec fn feed_dates(text: Seq<char>) -> Seq<Seq<char>> {
    lines_dates(split_on(text, '\n'))
}

/// A date with each single-digit time field made two digits, as far as the first
/// `:d ` goes: the first match of `:(\d) ` becomes `:0d `.
pub open spec fn padded_date(d: Seq<char>) -> Seq<char> {
    match regex_replaced_first(":(\\d) "@, d, ":0$1 "@) {
        Some(r) => r,
        None => d,
    }
}

/// What reading the `n`-th date of the feed does for the message at position `n`: nothing
/// (`None`) where its publication date is valid or the feed has no `n`-th date; else the
/// timestamp of the padded date, or the error.
pub open spec fn date_recovery(m: MessageRow, n: int, dates: Seq<Seq<char>>) -> Option<Result<i64, Seq<char>>> {
    if m.entry_invalid_pubdate && n < dates.len() {
        Some(rfc2822_parsed(padded_date(dates[n])))
    } else {
        None
    }
}

/// The message after the recovery: with the timestamp as its valid publication date
/// where the date was read, else unchanged.
pub open spec fn date_recovered(m: MessageRow, n: int, dates: Seq<Seq<char>>, r: MessageRow) -> bool {
    match date_recovery(m, n, dates) {
        Some(Ok(t)) => r == MessageRow { entry_src_date: t, entry_invalid_pubdate: false, ..m },
        _ => r == m,
    }
}

/// The error text of the last of the first `k` messages whose date does not read.
pub open spec fn last_recovery_error(ms: Seq<MessageRow>, dates: Seq<Seq<char>>, k: int) -> Option<Seq<char>>
    decreases k,
{
    if k <= 0 {
        None
    } else {
        match date_recovery(ms[k - 1], k - 1, dates) {
            Some(Err(e)) => Some("Error parse_from_rfc2822(`"@ + padded_date(dates[k - 1]) + "`) "@ + e + " "@),
            _ => last_recovery_error(ms, dates, k - 1),
        }
    }
}

/// The date in a line of feed text (see `line_date`).
fn line_date_of(line: &Vec<char>) -> (r: Option<Vec<char>>)
    ensures
        match r {
            Some(d) => line_date(line@) == Some(d@),
            None => line_date(line@) is None,
        },
{
    let pre = chars_of("<pubDate>");
    let suf = chars_of("</pubDate>");
    if !contains_vec(line, &pre) {
        return None;
    }
    let t = trim_vec(line);
    proof {
        assert(t@.skip(0) =~= t@);
    }
    if !crate::text::matches_at(&t, 0, &pre) {
        return None;
    }
    let rest = slice_chars(&t, pre.len(), t.len());
    proof {
        assert(rest@ =~= t@.skip(pre@.len() as int));
    }
    if rest.len() < suf.len() {
        return None;
    }
    let cut = rest.len() - suf.len();
    let ends = crate::text::matches_at(&rest, cut, &suf);
    proof {
        assert(rest@.skip(cut as int) =~= rest@.subrange(cut as int, rest@.len() as int));
        assert(rest@.skip(cut as int).take(suf@.len() as int) =~= rest@.skip(cut as int));
    }
    if !ends {
        return None;
    }
    let d = slice_chars(&rest, 0, cut);
    proof {
        assert(d@ =~= rest@.take(cut as int));
    }
    Some(d)
}

/// The `<pubDate>` dates of a feed text (see `feed_dates`).
fn feed_dates_of(text: &str) -> (r: Vec<Vec<char>>)
    ensures
        r@.map_values(|d: Vec<char>| d@) == feed_dates(text@),
{
    let lines = split_vec(&chars_of(text), '\n');
    let ghost ls = split_on(text@, '\n');
    let mut dates: Vec<Vec<char>> = Vec::new();
    let mut i: usize = 0;
    proof {
        assert(ls.take(0) =~= Seq::<Seq<char>>::empty());
        assert(dates@.map_values(|d: Vec<char>| d@) =~= Seq::<Seq<char>>::empty());
    }
    while i < lines.len()
        invariant
            i <= lines@.len(),
            lines@.len() == ls.len(),
            ls == split_on(text@, '\n'),
            forall|k: int| 0 <= k < lines@.len() ==> #[trigger] lines@[k]@ == ls[k],
            dates@.map_values(|d: Vec<char>| d@) == lines_dates(ls.take(i as int)),
        decreases lines.len() - i,
    {
        proof {
            assert(ls.take(i + 1).drop_last() =~= ls.take(i as int));
            assert(ls.take(i + 1).last() == lines@[i as int]@);
        }
        let ghost d0 = dates@.map_values(|d: Vec<char>| d@);
        match line_date_of(&lines[i]) {
            Some(d) => {
                dates.push(d);
                proof {
                    assert(dates@.map_values(|d: Vec<char>| d@) =~= d0.push(dates@.last()@));
                }
            },
            None => {},
        }
        i = i + 1;
    }
    proof {
        assert(ls.take(i as int) =~= ls);
    }
    dates
}

/// Reads the dates of messages whose publication date is invalid from the `<pubDate>`
/// lines of the feed text: the message at position `n` takes the `n`-th date (see
/// `date_recovered`). Gives the error text of the last date that did not read, if any.
pub fn strange_datetime_recover(newmessages: &mut Vec<MessageRow>, dl_text: &str) -> (r: Option<String>)
    ensures
        final(newmessages)@.len() == old(newmessages)@.len(),
        forall|i: int| 0 <= i < old(newmessages)@.len() ==> date_recovered(
            #[trigger] old(newmessages)@[i],
            i,
            feed_dates(dl_text@),
            final(newmessages)@[i],
        ),
        opt_text(r) == last_recovery_error(old(newmessages)@, feed_dates(dl_text@), old(newmessages)@.len() as int),
{
    if newmessages.len() == 0 {
        return None;
    }
    let ghost olds = newmessages@;
    let ghost dv = feed_dates(dl_text@);
    let dates = feed_dates_of(dl_text);
    let mut o_error: Option<String> = None;
    let mut n: usize = 0;
    while n < newmessages.len()
        invariant
            n <= newmessages@.len(),
            newmessages@.len() == olds.len(),
            dates@.map_values(|d: Vec<char>| d@) == dv,
            forall|k: int| 0 <= k < n ==> date_recovered(#[trigger] olds[k], k, dv, newmessages@[k]),
            forall|k: int| n <= k < olds.len() ==> #[trigger] newmessages@[k] == olds[k],
            opt_text(o_error) == last_recovery_error(olds, dv, n as int),
        decreases olds.len() - n,
    {
        proof {
            assert(newmessages@[n as int] == olds[n as int]);
        }
        if newmessages[n].entry_invalid_pubdate && n < dates.len() {
            proof {
                assert(dates@[n as int]@ == dv[n as int]);
            }
            let ds = string_of(&dates[n]);
            let replaced = match regex_replace_first(":(\\d) ", ds.as_str(), ":0$1 ") {
                Some(x) => x,
                None => ds,
            };
            match parse_rfc2822(replaced.as_str()) {
                Ok(t) => {
                    let mut m = newmessages[n].duplicate();
                    m.entry_src_date = t;
                    m.entry_invalid_pubdate = false;
                    newmessages.set(n, m);
                },
                Err(e) => {
                    let mut et = chars_of("Error parse_from_rfc2822(`");
                    append_chars(&mut et, &chars_of(replaced.as_str()));
                    append_chars(&mut et, &chars_of("`) "));
                    append_chars(&mut et, &chars_of(e.as_str()));
                    append_chars(&mut et, &chars_of(" "));
                    o_error = Some(string_of(&et));
                },
            }
        }
        n = n + 1;
    }
    o_error
}

} // verus!
