use vstd::prelude::*;
use crate::db::message::{base64_encode, base64_encoded, lz4_compress, lz4_compressed};
use crate::text::{append_chars, begins, chars_of, contains_seq, decimal, decimal_of, is_lit, mentions, opt_text, starts_with, string_of};
use crate::util::replace_lit;
use crate::downloader::messages::{feed_parse_outcome, feed_summary, link_values, parse_feed, parsed_feed};

verus! {

broadcast use vstd::string::group_string_axioms;

/// What `url::Url::parse` makes of a text: its scheme, host and port where it is a valid
/// URL.
pub uninterp spec fn url_parsed(text: Seq<char>) -> Option<(Seq<char>, Option<Seq<char>>, Option<u16>)>;

/// Parses a URL (`url::Url::parse`) into its scheme (`scheme`), host (`host_str`) and
/// port (`port`); nothing where the text is no valid URL. Named by `url_parsed`.
#[verifier::external_body]
fn parse_url(text: &str) -> (r: Option<(String, Option<String>, Option<u16>)>)
    ensures
        match r {
            Some((scheme, host, port)) => url_parsed(text@) == Some((scheme@, match host {
                Some(h) => Some(h@),
                None => None::<Seq<char>>,
            }, port)),
            None => url_parsed(text@) is None,
        },
{
    match url::Url::parse(text) {
        Ok(u) => Some((u.scheme().to_string(), u.host_str().map(|h| h.to_string()), u.port())),
        Err(_) => None,
    }
}


/// The host of a web address, as `url_parsed` gives it.
pub(crate) fn parse_host(text: &str) -> (r: Option<String>)
    ensures
        match r {
            Some(h) => url_parsed(text@) matches Some((_, Some(h0), _)) && h0 == h@,
            None => !(url_parsed(text@) matches Some((_, Some(_), _))),
        },
{
    match parse_url(text) {
        Some((_, Some(h), _)) => Some(h),
        _ => None,
    }
}

/// A valid URL that has no host (such as a `mailto:` one).
pub open spec fn url_without_host(text: Seq<char>) -> bool {
    url_parsed(text) matches Some((_, h, _)) && h is None
}

/// The scheme and host of a parsed URL as `scheme://host`.
pub open spec fn scheme_host(text: Seq<char>) -> Seq<char> {
    let (scheme, host, _port) = url_parsed(text).unwrap();
    scheme + "://"@ + host.unwrap()
}

/// `:port` where the URL gives a port, else nothing.
pub open spec fn port_suffix(text: Seq<char>) -> Seq<char> {
    match url_parsed(text).unwrap().2 {
        Some(p) => ":"@ + decimal(p as nat),
        None => Seq::empty(),
    }
}

/// `scheme://host` of a URL, as characters.
fn scheme_host_chars(scheme: &String, host: &String) -> (r: Vec<char>)
    ensures
        r@ == scheme@ + "://"@ + host@,
{
    let mut r = chars_of(scheme.as_str());
    let sep = chars_of("://");
    append_chars(&mut r, &sep);
    let h = chars_of(host.as_str());
    append_chars(&mut r, &h);
    r
}

/// The start of a web address: its scheme and host (`scheme://host`, no trailing slash);
/// nothing where it is no valid URL.
pub fn go_to_homepage(long_url: &String) -> (r: Option<String>)
    requires
        !url_without_host(long_url@),
    ensures
        match r {
            Some(s) => url_parsed(long_url@) is Some && s@ == scheme_host(long_url@),
            None => url_parsed(long_url@) is None,
        },
{
    match parse_url(long_url.as_str()) {
        Some((scheme, Some(host), _port)) => Some(string_of(&scheme_host_chars(&scheme, &host))),
        Some((_, None, _)) => None,
        None => None,
    }
}

/// `go_to_homepage` where the URL is no valid URL or has a host; for a valid URL without
/// host, for which that one has no answer, `None`.
pub fn go_to_homepage_checked(long_url: &String) -> (r: Option<Option<String>>)
    ensures
        r is None <==> url_without_host(long_url@),
        r matches Some(o) ==> match o {
            Some(s) => url_parsed(long_url@) is Some && s@ == scheme_host(long_url@),
            None => url_parsed(long_url@) is None,
        },
{
    match parse_url(long_url.as_str()) {
        Some((_, None, _)) => None,
        _ => Some(go_to_homepage(long_url)),
    }
}

/// `scheme://host`, then `:port` where the URL gives one.
fn main_url_chars(scheme: &String, host: &String, port: Option<u16>) -> (r: Vec<char>)
    ensures
        r@ == scheme@ + "://"@ + host@ + match port {
            Some(p) => ":"@ + decimal(p as nat),
            None => Seq::<char>::empty(),
        },
{
    let mut r = scheme_host_chars(scheme, host);
    match port {
        Some(p) => {
            let colon = chars_of(":");
            append_chars(&mut r, &colon);
            let d = decimal_of(p as u64);
            append_chars(&mut r, &d);
        },
        None => {},
    }
    proof {
        reveal_strlit(":");
    }
    r
}

/// The main address of the site of a feed: `scheme://host`, with `:port` where the feed
/// address gives one; the empty text where the feed address is no valid URL.
pub fn feed_url_to_main_url(f_u: String) -> (r: String)
    requires
        !url_without_host(f_u@),
    ensures
        r@ == if url_parsed(f_u@) is Some { scheme_host(f_u@) + port_suffix(f_u@) } else { Seq::<char>::empty() },
{
    match parse_url(f_u.as_str()) {
        Some((scheme, Some(host), port)) => string_of(&main_url_chars(&scheme, &host, port)),
        _ => String::new(),
    }
}

/// `feed_url_to_main_url`, or `None` for a valid URL without host.
pub fn feed_url_to_main_url_checked(f_u: String) -> (r: Option<String>)
    ensures
        r is None <==> url_without_host(f_u@),
        r matches Some(s) ==> s@ == if url_parsed(f_u@) is Some { scheme_host(f_u@) + port_suffix(f_u@) } else { Seq::<char>::empty() },
{
    match parse_url(f_u.as_str()) {
        Some((_, None, _)) => None,
        _ => Some(feed_url_to_main_url(f_u)),
    }
}

/// The usual icon address of the site of a feed: its main address (see
/// `feed_url_to_main_url`) followed by `/favicon.ico`; the empty text where the feed
/// address is no valid URL.
pub fn feed_url_to_icon_url(f_u: String) -> (r: String)
    requires
        !url_without_host(f_u@),
    ensures
        r@ == if url_parsed(f_u@) is Some {
            scheme_host(f_u@) + port_suffix(f_u@) + "/favicon.ico"@
        } else {
            Seq::<char>::empty()
        },
{
    match parse_url(f_u.as_str()) {
        Some((scheme, Some(host), port)) => {
            let mut r = main_url_chars(&scheme, &host, port);
            let tail = chars_of("/favicon.ico");
            append_chars(&mut r, &tail);
            string_of(&r)
        },
        _ => String::new(),
    }
}

/// `feed_url_to_icon_url`, or `None` for a valid URL without host.
pub fn feed_url_to_icon_url_checked(f_u: String) -> (r: Option<String>)
    ensures
        r is None <==> url_without_host(f_u@),
        r matches Some(s) ==> s@ == if url_parsed(f_u@) is Some {
            scheme_host(f_u@) + port_suffix(f_u@) + "/favicon.ico"@
        } else {
            Seq::<char>::empty()
        },
{
    match parse_url(f_u.as_str()) {
        Some((_, None, _)) => None,
        _ => Some(feed_url_to_icon_url(f_u)),
    }
}

/// Compresses bytes (LZ4) and writes the result as base64 text.
pub fn compress_vec_to_string(uncompressed: &[u8]) -> (r: String)
    ensures
        r@ == base64_encoded(lz4_compressed(uncompressed@)),
{
    let c = lz4_compress(uncompressed);
    base64_encode(c.as_slice())
}

/// The https spelling of the Atom namespace.
pub open spec fn atom_https() -> Seq<char> {
    "https://www.w3.org/2005/Atom"@
}

/// The http spelling of the Atom namespace.
pub open spec fn atom_http() -> Seq<char> {
    "http://www.w3.org/2005/Atom"@
}

/// A feed text with the https spelling of the Atom namespace replaced by the http one.
pub open spec fn atom_fixed(s: Seq<char>) -> Seq<char> {
    crate::text::replace_all(s, atom_https(), atom_http())
}

/// No `h` occurs in the text.
pub open spec fn without_h(w: Seq<char>) -> bool {
    forall|i: int| 0 <= i < w.len() ==> w[i] != 'h'
}

/// A text without `h` at the start of a fixed text was there before the fix.
proof fn lemma_prefix_kept(x: Seq<char>, w: Seq<char>)
    requires
        without_h(w),
        starts_with(atom_fixed(x), w),
    ensures
        starts_with(x, w),
    decreases x.len(),
{
    reveal_strlit("https://www.w3.org/2005/Atom");
    reveal_strlit("http://www.w3.org/2005/Atom");
    let r = atom_fixed(x);
    if w.len() == 0 {
        assert(x.take(0) =~= w);
    } else if x.len() == 0 {
    } else if starts_with(x, atom_https()) {
        assert(r == atom_http() + atom_fixed(x.skip(28)));
        assert(r[0] == 'h');
        assert(r.take(w.len() as int)[0] == r[0]);
        assert(w[0] != 'h');
    } else {
        let t = atom_fixed(x.skip(1));
        assert(r == seq![x[0]] + t);
        let n = w.len() as int;
        assert(r.take(n)[0] == x[0]);
        assert(w[0] == x[0]);
        assert(t.len() >= n - 1);
        assert(t.take(n - 1) =~= r.take(n).skip(1));
        assert(w.skip(1) =~= w.take(n).skip(1));
        assert(starts_with(t, w.skip(1)));
        assert(without_h(w.skip(1))) by {
            assert forall|i: int| 0 <= i < w.skip(1).len() implies w.skip(1)[i] != 'h' by {
                assert(w.skip(1)[i] == w[i + 1]);
            }
        }
        lemma_prefix_kept(x.skip(1), w.skip(1));
        assert(x.take(n) =~= seq![x[0]] + x.skip(1).take(n - 1));
        assert(w =~= seq![w[0]] + w.skip(1));
    }
}

/// Fixing a text that starts with a part without `h` leaves that part as it is.
proof fn lemma_fix_after_plain(y: Seq<char>, x: Seq<char>)
    requires
        without_h(y),
    ensures
        atom_fixed(y + x) == y + atom_fixed(x),
    decreases y.len(),
{
    reveal_strlit("https://www.w3.org/2005/Atom");
    if y.len() == 0 {
        assert(y + x =~= x);
    } else {
        let t = y + x;
        assert(t[0] == y[0]);
        assert(!starts_with(t, atom_https())) by {
            if atom_https().len() <= t.len() {
                assert(t.take(28)[0] == t[0]);
            }
        }
        assert(t.skip(1) =~= y.skip(1) + x);
        assert(without_h(y.skip(1))) by {
            assert forall|i: int| 0 <= i < y.skip(1).len() implies y.skip(1)[i] != 'h' by {
                assert(y.skip(1)[i] == y[i + 1]);
            }
        }
        lemma_fix_after_plain(y.skip(1), x);
        assert(y + atom_fixed(x) =~= seq![y[0]] + (y.skip(1) + atom_fixed(x)));
    }
}

/// The fix of the Atom namespace is done once for all: fixing a fixed text changes
/// nothing more.
pub proof fn lemma_atom_fix_idempotent(s: Seq<char>)
    ensures
        atom_fixed(atom_fixed(s)) == atom_fixed(s),
    decreases s.len(),
{
    reveal_strlit("https://www.w3.org/2005/Atom");
    reveal_strlit("http://www.w3.org/2005/Atom");
    let p = atom_https();
    let q = atom_http();
    if s.len() == 0 {
    } else if starts_with(s, p) {
        let s2 = s.skip(28);
        let x = atom_fixed(s2);
        lemma_atom_fix_idempotent(s2);
        assert(atom_fixed(s) == q + x);
        let t = q + x;
        assert(!starts_with(t, p)) by {
            if p.len() <= t.len() {
                assert(t.take(28)[4] == q[4]);
            }
        }
        assert(t.skip(1) =~= q.skip(1) + x);
        assert(without_h(q.skip(1))) by {
            assert forall|i: int| 0 <= i < q.skip(1).len() implies q.skip(1)[i] != 'h' by {
                assert(q.skip(1)[i] == q[i + 1]);
            }
        }
        lemma_fix_after_plain(q.skip(1), x);
        assert(atom_fixed(t) == seq![t[0]] + atom_fixed(t.skip(1)));
        assert(seq![t[0]] + (q.skip(1) + x) =~= q + x);
    } else {
        let s1 = s.skip(1);
        let t = seq![s[0]] + atom_fixed(s1);
        assert(atom_fixed(s) == t);
        lemma_atom_fix_idempotent(s1);
        let w = p.skip(1);
        assert(without_h(w)) by {
            assert forall|i: int| 0 <= i < w.len() implies w[i] != 'h' by {
                assert(w[i] == p[i + 1]);
            }
        }
        assert(!starts_with(t, p)) by {
            if starts_with(t, p) {
                assert(t.take(28)[0] == t[0]);
                assert(s[0] == 'h');
                assert(atom_fixed(s1).take(27) =~= t.take(28).skip(1));
                assert(starts_with(atom_fixed(s1), w));
                lemma_prefix_kept(s1, w);
                assert(s.take(28) =~= seq![s[0]] + s1.take(27));
                assert(p =~= seq![p[0]] + w);
                assert(starts_with(s, p));
            }
        }
        assert(t.skip(1) =~= atom_fixed(s1));
        assert(atom_fixed(t) == seq![t[0]] + atom_fixed(t.skip(1)));
    }
}

/// The fix never makes a text longer, and makes one that holds the https spelling shorter.
proof fn lemma_fix_length(t: Seq<char>)
    ensures
        atom_fixed(t).len() <= t.len(),
        contains_seq(t, atom_https()) ==> atom_fixed(t).len() < t.len(),
    decreases t.len(),
{
    reveal_strlit("https://www.w3.org/2005/Atom");
    reveal_strlit("http://www.w3.org/2005/Atom");
    let p = atom_https();
    if t.len() == 0 {
        if contains_seq(t, p) {
            let i = choose|i: int| 0 <= i <= t.len() - p.len() && #[trigger] t.subrange(i, i + p.len()) == p;
            assert(false);
        }
    } else if starts_with(t, p) {
        lemma_fix_length(t.skip(28));
    } else {
        let t1 = t.skip(1);
        lemma_fix_length(t1);
        if contains_seq(t, p) {
            let i = choose|i: int| 0 <= i <= t.len() - p.len() && #[trigger] t.subrange(i, i + p.len()) == p;
            if i == 0 {
                assert(t.take(28) =~= t.subrange(0, 28));
                assert(starts_with(t, p));
            } else {
                assert(t1.subrange(i - 1, i - 1 + p.len()) =~= t.subrange(i, i + p.len()));
                assert(contains_seq(t1, p));
            }
        }
    }
}

/// After the fix the https spelling of the Atom namespace is gone from the text.
pub proof fn lemma_atom_fix_leaves_no_https(s: Seq<char>)
    ensures
        !contains_seq(atom_fixed(s), atom_https()),
{
    lemma_atom_fix_idempotent(s);
    lemma_fix_length(atom_fixed(s));
}

/// A feed text with the https spelling of the Atom namespace replaced by the http one.
pub fn workaround_https_declaration(wrong: String) -> (r: String)
    ensures
        r@ == atom_fixed(wrong@),
        !contains_seq(r@, atom_https()),
{
    proof {
        lemma_atom_fix_leaves_no_https(wrong@);
    }
    let v = chars_of(wrong.as_str());
    let v = replace_lit(&v, "https://www.w3.org/2005/Atom", "http://www.w3.org/2005/Atom");
    string_of(&v)
}

/// A node of a parsed HTML page: a tag with its name and the values of the asked
/// attributes (none where absent or without value); other nodes are none.
pub type HtmlNode = Option<(Seq<char>, Seq<Option<Seq<char>>>)>;

/// What `tl::parse` (default options) makes of a page: for each node in document order,
/// a tag's name and the values that `Attributes::get` gives for `keys`; or the parser's
/// error text.
pub uninterp spec fn html_nodes(content: Seq<char>, keys: Seq<Seq<char>>) -> Result<Seq<HtmlNode>, Seq<char>>;

/// A node by value.
pub open spec fn node_value(n: Option<(String, Vec<Option<String>>)>) -> HtmlNode {
    match n {
        Some((name, vals)) => Some((name@, vals@.map_values(|o: Option<String>| opt_text(o)))),
        None => None,
    }
}

/// Parses a page (`tl::parse`, default options) and lists its nodes: for a tag its name
/// (`HTMLTag::name`) and the values of the given attributes (`Attributes::get`, a present
/// attribute without value counting as absent); other nodes as none. Named by `html_nodes`.
#[verifier::external_body]
fn parse_html_nodes<'a>(content: &'a str, keys: &'a Vec<String>) -> (r: Result<Vec<Option<(String, Vec<Option<String>>)>>, String>)
    ensures
        match r {
            Ok(v) => html_nodes(content@, keys@.map_values(|k: String| k@)) == Ok::<Seq<HtmlNode>, Seq<char>>(
                v@.map_values(|n: Option<(String, Vec<Option<String>>)>| node_value(n))),
            Err(e) => html_nodes(content@, keys@.map_values(|k: String| k@)) == Err::<Seq<HtmlNode>, Seq<char>>(e@),
        },
{
    match tl::parse(content, tl::ParserOptions::default()) {
        Ok(dom) => Ok(dom.nodes().iter().map(|n| match n {
            tl::Node::Tag(t) => Some((t.name().as_utf8_str().into_owned(), keys.iter().map(|k| t.attributes().get(k.as_str()).flatten().map(|b| b.as_utf8_str().into_owned())).collect())),
            _ => None,
        }).collect()),
        Err(e) => Err(format!("{:?}", e)),
    }
}

/// The attributes read from `<link>` tags: `rel`, `type`, `href`.
pub open spec fn link_keys() -> Seq<Seq<char>> {
    seq!["rel"@, "type"@, "href"@]
}

/// The attributes `rel`, `type`, `href` as a list of strings.
fn link_key_list() -> (r: Vec<String>)
    ensures
        r@.map_values(|k: String| k@) == link_keys(),
{
    let mut r: Vec<String> = Vec::new();
    r.push("rel".to_string());
    r.push("type".to_string());
    r.push("href".to_string());
    proof {
        assert(r@.map_values(|k: String| k@) =~= link_keys());
    }
    r
}

/// The `rel`, `type` and `href` values of a `<link>` tag; none for other nodes.
pub open spec fn link_vals(n: HtmlNode) -> Option<Seq<Option<Seq<char>>>> {
    match n {
        Some((name, vals)) => if name == "link"@ && vals.len() == 3 { Some(vals) } else { None },
        None => None,
    }
}

/// A `type` that fits an icon: absent, or mentioning `icon`, or beginning with `image/`.
pub open spec fn icon_type(t: Option<Seq<char>>) -> bool {
    match t {
        Some(x) => contains_seq(x, "icon"@) || starts_with(x, "image/"@),
        None => true,
    }
}

/// A `type` that fits a feed: present and mentioning `rss` or `atom`.
pub open spec fn feed_type(t: Option<Seq<char>>) -> bool {
    match t {
        Some(x) => contains_seq(x, "rss"@) || contains_seq(x, "atom"@),
        None => false,
    }
}

/// The `href` of a link tag that names an icon: one with a `rel` mentioning `icon`
/// and an icon `type` (see `icon_type`).
pub open spec fn icon_href(n: HtmlNode) -> Option<Seq<char>> {
    match link_vals(n) {
        Some(v) => if v[0] is Some && icon_type(v[1]) && contains_seq(v[0].unwrap(), "icon"@) {
            v[2]
        } else {
            None
        },
        None => None,
    }
}

/// The `href` of a link tag that names a feed: one with a `rel`, a feed `type` (see
/// `feed_type`), and an `href` that does not mention `comments`.
pub open spec fn feed_href(n: HtmlNode) -> Option<Seq<char>> {
    match link_vals(n) {
        Some(v) => if v[0] is Some && feed_type(v[1]) && v[2] is Some && !contains_seq(v[2].unwrap(), "comments"@) {
            v[2]
        } else {
            None
        },
        None => None,
    }
}

/// A link tag with a `rel` and a feed `type` but no `href`.
pub open spec fn feed_link_lacks_href(n: HtmlNode) -> bool {
    match link_vals(n) {
        Some(v) => v[0] is Some && feed_type(v[1]) && v[2] is None,
        None => false,
    }
}

/// The `href` that a node gives: as an icon link, or as a feed link.
pub open spec fn href_for(n: HtmlNode, icon: bool) -> Option<Seq<char>> {
    if icon { icon_href(n) } else { feed_href(n) }
}

/// The addresses that the nodes give (see `href_for`), in node order.
pub open spec fn picked(nodes: Seq<HtmlNode>, icon: bool) -> Seq<Seq<char>>
    decreases nodes.len(),
{
    if nodes.len() == 0 {
        Seq::empty()
    } else {
        let rest = picked(nodes.drop_last(), icon);
        match href_for(nodes.last(), icon) {
            Some(h) => rest.push(h),
            None => rest,
        }
    }
}

/// The icon addresses that a page's `<link>` tags name, in order (see `icon_href`).
pub open spec fn icon_links(nodes: Seq<HtmlNode>) -> Seq<Seq<char>> {
    picked(nodes, true)
}

/// The feed addresses that a page's `<link>` tags name, in order (see `feed_href`).
pub open spec fn feed_links(nodes: Seq<HtmlNode>) -> Seq<Seq<char>> {
    picked(nodes, false)
}

/// Some link tag has a `rel` and a feed `type` but no `href`.
pub open spec fn feed_link_without_href(nodes: Seq<HtmlNode>) -> bool {
    exists|i: int| 0 <= i < nodes.len() && #[trigger] feed_link_lacks_href(nodes[i])
}

/// The `rel`, `type`, `href` of a link tag, as `link_vals` gives them.
fn node_link_values(n: &Option<(String, Vec<Option<String>>)>) -> (r: Option<&Vec<Option<String>>>)
    ensures
        match r {
            Some(v) => link_vals(node_value(*n)) == Some(v@.map_values(|o: Option<String>| opt_text(o))) && v@.len() == 3,
            None => link_vals(node_value(*n)) is None,
        },
{
    proof {
        reveal_strlit("link");
    }
    match n {
        Some((name, vals)) => {
            if is_lit(name, "link") && vals.len() == 3 {
                Some(vals)
            } else {
                None
            }
        },
        None => None,
    }
}

/// The `href` of a node, as `icon_href` gives it.
fn icon_href_of(n: &Option<(String, Vec<Option<String>>)>) -> (r: Option<String>)
    ensures
        opt_text(r) == icon_href(node_value(*n)),
{
    proof {
        reveal_strlit("icon");
        reveal_strlit("image/");
    }
    match node_link_values(n) {
        Some(vals) => {
            let ghost v = vals@.map_values(|o: Option<String>| opt_text(o));
            proof {
                assert(v[0] == opt_text(vals@[0]));
                assert(v[1] == opt_text(vals@[1]));
                assert(v[2] == opt_text(vals@[2]));
            }
            let rel = match &vals[0] {
                Some(x) => x,
                None => { return None; },
            };
            let type_ok = match &vals[1] {
                Some(t) => mentions(t, "icon") || begins(t, "image/"),
                None => true,
            };
            if !type_ok || !mentions(rel, "icon") {
                return None;
            }
            match &vals[2] {
                Some(h) => Some(h.clone()),
                None => None,
            }
        },
        None => None,
    }
}

/// The `href` of a node, as `feed_href` gives it; and whether the node is a link tag
/// with a `rel` and a feed `type` but no `href`.
fn feed_href_of(n: &Option<(String, Vec<Option<String>>)>) -> (r: (Option<String>, bool))
    ensures
        opt_text(r.0) == feed_href(node_value(*n)),
        r.1 == feed_link_lacks_href(node_value(*n)),
{
    proof {
        reveal_strlit("rss");
        reveal_strlit("atom");
        reveal_strlit("comments");
    }
    match node_link_values(n) {
        Some(vals) => {
            let ghost v = vals@.map_values(|o: Option<String>| opt_text(o));
            proof {
                assert(v[0] == opt_text(vals@[0]));
                assert(v[1] == opt_text(vals@[1]));
                assert(v[2] == opt_text(vals@[2]));
            }
            if vals[0].is_none() {
                return (None, false);
            }
            let type_ok = match &vals[1] {
                Some(t) => mentions(t, "rss") || mentions(t, "atom"),
                None => false,
            };
            if !type_ok {
                return (None, false);
            }
            match &vals[2] {
                Some(h) => {
                    if mentions(h, "comments") {
                        (None, false)
                    } else {
                        (Some(h.clone()), false)
                    }
                },
                None => (None, true),
            }
        },
        None => (None, false),
    }
}

/// What `picked` gives for a prefix of the nodes begins what it gives for all of them.
pub proof fn lemma_picked_prefix(nodes: Seq<HtmlNode>, k: int, pick: bool)
    requires
        0 <= k <= nodes.len(),
    ensures
        picked(nodes.take(k), pick).is_prefix_of(picked(nodes, pick)),
    decreases nodes.len(),
{
    if k == nodes.len() {
        assert(nodes.take(k) =~= nodes);
    } else {
        lemma_picked_prefix(nodes.drop_last(), k, pick);
        assert(nodes.drop_last().take(k) =~= nodes.take(k));
    }
}

/// The first value that `pick` gives for the nodes, as the loop finds it.
fn first_picked(nodes: &Vec<Option<(String, Vec<Option<String>>)>>, is_icon: bool) -> (r: (Option<String>, bool))
    ensures
        ({
            let nv = nodes@.map_values(|n: Option<(String, Vec<Option<String>>)>| node_value(n));
            let found = if is_icon { icon_links(nv) } else { feed_links(nv) };
            &&& match r.0 {
                Some(h) => found.len() > 0 && found[0] == h@,
                None => found.len() == 0,
            }
            &&& !is_icon && r.1 ==> feed_link_without_href(nv)
            &&& !is_icon && r.0 is None ==> r.1 == feed_link_without_href(nv)
        }),
{
    let ghost nv = nodes@.map_values(|n: Option<(String, Vec<Option<String>>)>| node_value(n));
    let ghost pick = is_icon;
    let mut lacks = false;
    let mut i: usize = 0;
    proof {
        assert(nv.take(0) =~= Seq::<HtmlNode>::empty());
    }
    while i < nodes.len()
        invariant
            i <= nodes@.len(),
            nv == nodes@.map_values(|n: Option<(String, Vec<Option<String>>)>| node_value(n)),
            pick == is_icon,
            picked(nv.take(i as int), pick) == Seq::<Seq<char>>::empty(),
            !is_icon ==> (lacks <==> exists|j: int| 0 <= j < i && #[trigger] feed_link_lacks_href(nv[j])),
        decreases nodes.len() - i,
    {
        proof {
            assert(nv.take(i + 1).drop_last() =~= nv.take(i as int));
            assert(nv.take(i + 1).last() == node_value(nodes@[i as int]));
            assert(nv[i as int] == node_value(nodes@[i as int]));
        }
        let (h, lack) = if is_icon {
            (icon_href_of(&nodes[i]), false)
        } else {
            feed_href_of(&nodes[i])
        };
        if lack {
            lacks = true;
        }
        proof {
            if !is_icon {
                if lack {
                    assert(feed_link_lacks_href(nv[i as int]));
                }
                assert forall|j: int| 0 <= j < i + 1 && #[trigger] feed_link_lacks_href(nv[j]) implies lacks by {
                    if j < i {
                        assert(exists|j2: int| 0 <= j2 < i && #[trigger] feed_link_lacks_href(nv[j2]));
                    }
                }
            }
        }
        match h {
            Some(x) => {
                proof {
                    lemma_picked_prefix(nv, i + 1, pick);
                    assert(href_for(nv.take(i + 1).last(), pick) == Some(x@));
                    assert(picked(nv.take(i + 1), pick) =~= seq![x@]);
                    let whole = picked(nv, pick);
                    assert(whole.subrange(0, 1) == seq![x@]);
                    assert(whole[0] == whole.subrange(0, 1)[0]);
                    if !is_icon && lacks {
                        let j = choose|j: int| 0 <= j < i + 1 && #[trigger] feed_link_lacks_href(nv[j]);
                        assert(feed_link_lacks_href(nv[j]));
                    }
                }
                return (Some(x), lacks);
            },
            None => {},
        }
        i = i + 1;
    }
    proof {
        assert(nv.take(i as int) =~= nv);
        if !is_icon && lacks {
            let j = choose|j: int| 0 <= j < i && #[trigger] feed_link_lacks_href(nv[j]);
            assert(feed_link_lacks_href(nv[j]));
        }
    }
    (None, lacks)
}

/// An icon address made absolute: `//x` gets `https:` in front; an address not starting
/// with `http:` or `https:` gets the homepage in front, or, where it starts with `/`, the
/// homepage's `scheme://host` where the homepage is a valid URL.
pub open spec fn absolute_icon_url(first: Seq<char>, homepage: Seq<char>) -> Seq<char> {
    let h1 = if starts_with(first, "//"@) { "https:"@ + first } else { first };
    if !starts_with(h1, "http:"@) && !starts_with(h1, "https:"@) {
        let host = if starts_with(h1, "/"@) && url_parsed(homepage) is Some { scheme_host(homepage) } else { homepage };
        host + h1
    } else {
        h1
    }
}

/// What `extract_icon_from_homepage` gives: the first icon address the page names, made
/// absolute (see `absolute_icon_url`); or the error of the HTML parser, or that none is
/// named.
pub open spec fn icon_from_homepage(hp: Seq<char>, homepage: Seq<char>) -> Result<Seq<char>, Seq<char>> {
    match html_nodes(hp, link_keys()) {
        Err(e) => Err("XI: parsing homepage: "@ + e),
        Ok(nodes) => if icon_links(nodes).len() > 0 {
            Ok(absolute_icon_url(icon_links(nodes)[0], homepage))
        } else {
            Err("no rel_icon  on page  found"@)
        },
    }
}

/// The page names an icon by a path from the root (`/..`) and the homepage is a valid
/// URL without host, whose host is then asked for.
pub open spec fn icon_needs_missing_host(hp: Seq<char>, homepage: Seq<char>) -> bool {
    html_nodes(hp, link_keys()) matches Ok(nodes) && icon_links(nodes).len() > 0 && {
        let first = icon_links(nodes)[0];
        let h1 = if starts_with(first, "//"@) { "https:"@ + first } else { first };
        !starts_with(h1, "http:"@) && !starts_with(h1, "https:"@) && starts_with(h1, "/"@)
    } && url_without_host(homepage)
}

/// Finds the icon address that a homepage names in its `<link>` tags (see
/// `icon_from_homepage`).
pub fn extract_icon_from_homepage(hp_content: String, homepage_url: &String) -> (r: Result<String, String>)
    requires
        !icon_needs_missing_host(hp_content@, homepage_url@),
    ensures
        match r {
            Ok(s) => icon_from_homepage(hp_content@, homepage_url@) == Ok::<Seq<char>, Seq<char>>(s@),
            Err(e) => icon_from_homepage(hp_content@, homepage_url@) == Err::<Seq<char>, Seq<char>>(e@),
        },
{
    let keys = link_key_list();
    let nodes = match parse_html_nodes(hp_content.as_str(), &keys) {
        Ok(n) => n,
        Err(e) => {
            let mut m = chars_of("XI: parsing homepage: ");
            let ev = chars_of(e.as_str());
            append_chars(&mut m, &ev);
            return Err(string_of(&m));
        },
    };
    let (first, _) = first_picked(&nodes, true);
    let first = match first {
        Some(f) => f,
        None => {
            return Err("no rel_icon  on page  found".to_string());
        },
    };
    let mut icon_href = chars_of(first.as_str());
    let slash2 = chars_of("//");
    proof {
        assert(icon_href@.skip(0) =~= icon_href@);
    }
    if crate::text::matches_at(&icon_href, 0, &slash2) {
        let mut h = chars_of("https:");
        append_chars(&mut h, &icon_href);
        icon_href = h;
    }
    let http = chars_of("http:");
    let https = chars_of("https:");
    let slash = chars_of("/");
    proof {
        assert(icon_href@.skip(0) =~= icon_href@);
    }
    if !crate::text::matches_at(&icon_href, 0, &http) && !crate::text::matches_at(&icon_href, 0, &https) {
        let mut host = chars_of(homepage_url.as_str());
        if crate::text::matches_at(&icon_href, 0, &slash) {
            match parse_url(homepage_url.as_str()) {
                Some((scheme, Some(h), _)) => {
                    host = scheme_host_chars(&scheme, &h);
                },
                _ => {},
            }
        }
        append_chars(&mut host, &icon_href);
        icon_href = host;
    }
    Ok(string_of(&icon_href))
}

/// `extract_icon_from_homepage` where the homepage is no valid URL or has a host; for a
/// valid URL without host, `None`.
pub fn extract_icon_from_homepage_checked(hp_content: String, homepage_url: &String) -> (r: Option<Result<String, String>>)
    ensures
        r is None <==> url_without_host(homepage_url@),
        r matches Some(x) ==> match x {
            Ok(s) => icon_from_homepage(hp_content@, homepage_url@) == Ok::<Seq<char>, Seq<char>>(s@),
            Err(e) => icon_from_homepage(hp_content@, homepage_url@) == Err::<Seq<char>, Seq<char>>(e@),
        },
{
    match parse_url(homepage_url.as_str()) {
        Some((_, None, _)) => None,
        _ => Some(extract_icon_from_homepage(hp_content, homepage_url)),
    }
}

/// What `extract_feed_from_website` gives: the first feed address that the page names,
/// with the page's `scheme://host` in front where it starts with `/` and the page
/// address is a valid URL; or the error of the HTML parser, or that none is named.
pub open spec fn feed_from_website(page: Seq<char>, page_url: Seq<char>) -> Result<Seq<char>, Seq<char>> {
    match html_nodes(page, link_keys()) {
        Err(e) => Err("XF: parsing homepage: "@ + e),
        Ok(nodes) => if feed_links(nodes).len() == 0 {
            Err("no feed url found"@)
        } else {
            let f = feed_links(nodes)[0];
            if starts_with(f, "/"@) && url_parsed(page_url) is Some {
                Ok(scheme_host(page_url) + f)
            } else {
                Ok(f)
            }
        },
    }
}

/// Inputs on which the feed search has no answer: a feed link tag without `href`, or a
/// first feed address from the root (`/..`) on a page whose address is a valid URL
/// without host.
pub open spec fn feed_search_stuck(page: Seq<char>, page_url: Seq<char>) -> bool {
    html_nodes(page, link_keys()) matches Ok(nodes) && (feed_link_without_href(nodes)
        || (feed_links(nodes).len() > 0 && starts_with(feed_links(nodes)[0], "/"@) && url_without_host(page_url)))
}

/// Finds the feed address that a web page names in its `<link>` tags (see
/// `feed_from_website`).
pub fn extract_feed_from_website(page_content: &String, page_url: &str) -> (r: Result<String, String>)
    requires
        !feed_search_stuck(page_content@, page_url@),
    ensures
        match r {
            Ok(s) => feed_from_website(page_content@, page_url@) == Ok::<Seq<char>, Seq<char>>(s@),
            Err(e) => feed_from_website(page_content@, page_url@) == Err::<Seq<char>, Seq<char>>(e@),
        },
{
    let keys = link_key_list();
    let nodes = match parse_html_nodes(page_content.as_str(), &keys) {
        Ok(n) => n,
        Err(e) => {
            let mut m = chars_of("XF: parsing homepage: ");
            let ev = chars_of(e.as_str());
            append_chars(&mut m, &ev);
            return Err(string_of(&m));
        },
    };
    let (first, _) = first_picked(&nodes, false);
    let feed_url = match first {
        Some(f) => f,
        None => {
            return Err("no feed url found".to_string());
        },
    };
    let fv = chars_of(feed_url.as_str());
    let slash = chars_of("/");
    proof {
        assert(fv@.skip(0) =~= fv@);
    }
    if crate::text::matches_at(&fv, 0, &slash) {
        match parse_url(page_url) {
            Some((scheme, Some(h), _)) => {
                let mut base = scheme_host_chars(&scheme, &h);
                append_chars(&mut base, &fv);
                return Ok(string_of(&base));
            },
            _ => {},
        }
    }
    Ok(feed_url)
}

/// `extract_feed_from_website`, or `None` where it has no answer (see
/// `feed_search_stuck`).
pub fn extract_feed_from_website_checked(page_content: &String, page_url: &str) -> (r: Option<Result<String, String>>)
    ensures
        r is None <==> feed_search_stuck(page_content@, page_url@),
        r matches Some(x) ==> match x {
            Ok(s) => feed_from_website(page_content@, page_url@) == Ok::<Seq<char>, Seq<char>>(s@),
            Err(e) => feed_from_website(page_content@, page_url@) == Err::<Seq<char>, Seq<char>>(e@),
        },
{
    let keys = link_key_list();
    match parse_html_nodes(page_content.as_str(), &keys) {
        Ok(nodes) => {
            let (first, lacks) = first_picked(&nodes, false);
            // a feed link without `href`: before the first feed address, or anywhere once
            // one is found
            let all_lacks = if first.is_some() && !lacks { any_feed_link_lacks_href(&nodes) } else { lacks };
            let mut from_root_without_host = false;
            match &first {
                Some(f) => {
                    let fv = chars_of(f.as_str());
                    let slash = chars_of("/");
                    proof {
                        assert(fv@.skip(0) =~= fv@);
                    }
                    if crate::text::matches_at(&fv, 0, &slash) {
                        match parse_url(page_url) {
                            Some((_, None, _)) => {
                                from_root_without_host = true;
                            },
                            _ => {},
                        }
                    }
                },
                None => {},
            }
            if all_lacks || from_root_without_host {
                None
            } else {
                Some(extract_feed_from_website(page_content, page_url))
            }
        },
        Err(_) => Some(extract_feed_from_website(page_content, page_url)),
    }
}

/// Whether some node is a feed link tag without `href`.
fn any_feed_link_lacks_href(nodes: &Vec<Option<(String, Vec<Option<String>>)>>) -> (r: bool)
    ensures
        r == feed_link_without_href(nodes@.map_values(|n: Option<(String, Vec<Option<String>>)>| node_value(n))),
{
    let ghost nv = nodes@.map_values(|n: Option<(String, Vec<Option<String>>)>| node_value(n));
    let mut i: usize = 0;
    while i < nodes.len()
        invariant
            i <= nodes@.len(),
            nv == nodes@.map_values(|n: Option<(String, Vec<Option<String>>)>| node_value(n)),
            forall|j: int| 0 <= j < i ==> !#[trigger] feed_link_lacks_href(nv[j]),
        decreases nodes.len() - i,
    {
        let (_, lack) = feed_href_of(&nodes[i]);
        proof {
            assert(nv[i as int] == node_value(nodes@[i as int]));
        }
        if lack {
            return true;
        }
        i = i + 1;
    }
    false
}

/// A link of a feed: its address, relation and media type.
pub type FeedLink = (Seq<char>, Option<Seq<char>>, Option<Seq<char>>);

/// The debug form of a text (`<str as Debug>::fmt`): quoted, with escapes.
pub uninterp spec fn debug_quoted(text: Seq<char>) -> Seq<char>;

/// Writes a text in its debug form (`format!("{:?}", ..)` on a `str`). Named by
/// `debug_quoted`.
#[verifier::external_body]
fn debug_text(text: &str) -> (r: String)
    ensures
        r@ == debug_quoted(text@),
{
    format!("{:?}", text)
}

/// A feed link that can be the homepage: not itself a feed (`application/rss+xml`), and
/// not of relation `hub`, `self` or `first`.
pub open spec fn homepage_candidate(l: FeedLink) -> bool {
    &&& l.2 != Some("application/rss+xml"@)
    &&& l.1 != Some("hub"@)
    &&& l.1 != Some("self"@)
    &&& l.1 != Some("first"@)
}

/// The last link that can be the homepage.
pub open spec fn last_homepage(links: Seq<FeedLink>) -> Option<Seq<char>>
    decreases links.len(),
{
    if links.len() == 0 {
        None
    } else if homepage_candidate(links.last()) {
        Some(links.last().0)
    } else {
        last_homepage(links.drop_last())
    }
}

/// What `retrieve_homepage_from_feed_text` gives: the homepage (the last link that can
/// be one) and the title of the feed; or an error where the feed does not parse, has no
/// title, or no link can be the homepage.
pub open spec fn homepage_from_feed(input: Seq<u8>, feed_url: Seq<char>) -> Result<(Seq<char>, Seq<char>), Seq<char>> {
    match feed_parse_outcome(input) {
        Err((kind, detail)) => Err("Parsing: "@ + debug_quoted(feed_url) + " Some("@ + kind + "("@ + detail + "))"@),
        Ok(feed) => match feed.2 {
            None => Err("c:title empty for "@ + feed_url),
            Some(t) => match last_homepage(feed.3) {
                Some(h) => Ok((h, t)),
                None => Err("no link for HP found  "@ + feed_url + " "@),
            },
        },
    }
}

/// Whether a text equals the literal, where there is a text.
fn opt_is(o: &Option<String>, l: &str) -> (r: bool)
    ensures
        r == (opt_text(*o) == Some(l@)),
{
    match o {
        Some(x) => is_lit(x, l),
        None => false,
    }
}

/// Reads the homepage and the title of a feed from its text (see `homepage_from_feed`).
pub fn retrieve_homepage_from_feed_text(input: &[u8], dbg_feed_url: &str) -> (r: Result<(String, String), String>)
    ensures
        match r {
            Ok((h, t)) => homepage_from_feed(input@, dbg_feed_url@) == Ok::<(Seq<char>, Seq<char>), Seq<char>>((h@, t@)),
            Err(e) => homepage_from_feed(input@, dbg_feed_url@) == Err::<(Seq<char>, Seq<char>), Seq<char>>(e@),
        },
{
    let pf = match parse_feed(input) {
        Ok(pf) => pf,
        Err((kind, detail)) => {
            let mut m = chars_of("Parsing: ");
            let q = debug_text(dbg_feed_url);
            append_chars(&mut m, &chars_of(q.as_str()));
            append_chars(&mut m, &chars_of(" Some("));
            append_chars(&mut m, &chars_of(kind.as_str()));
            append_chars(&mut m, &chars_of("("));
            append_chars(&mut m, &chars_of(detail.as_str()));
            append_chars(&mut m, &chars_of("))"));
            return Err(string_of(&m));
        },
    };
    let (_count, _updated, title, links) = feed_summary(&pf);
    let title = match title {
        Some(t) => t,
        None => {
            let mut m = chars_of("c:title empty for ");
            append_chars(&mut m, &chars_of(dbg_feed_url));
            return Err(string_of(&m));
        },
    };
    let ghost lv = link_values(links@);
    let mut i: usize = links.len();
    proof {
        assert(lv.take(i as int) =~= lv);
    }
    while i > 0
        invariant
            i <= links@.len(),
            lv == link_values(links@),
            feed_parse_outcome(input@) is Ok,
            parsed_feed(input@).2 == Some(title@),
            parsed_feed(input@).3 == lv,
            last_homepage(lv) == last_homepage(lv.take(i as int)),
        decreases i,
    {
        let l = &links[i - 1];
        proof {
            assert(lv.take(i as int).last() == (links@[i - 1].0@, opt_text(links@[i - 1].1), opt_text(links@[i - 1].2)));
            assert(lv.take(i as int).drop_last() =~= lv.take(i - 1));
        }
        if !opt_is(&l.2, "application/rss+xml") && !opt_is(&l.1, "hub") && !opt_is(&l.1, "self")
            && !opt_is(&l.1, "first") {
            return Ok((l.0.clone(), title));
        }
        i = i - 1;
    }
    let mut m = chars_of("no link for HP found  ");
    append_chars(&mut m, &chars_of(dbg_feed_url));
    append_chars(&mut m, &chars_of(" "));
    Err(string_of(&m))
}

} // verus!
