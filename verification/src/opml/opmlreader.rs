use vstd::prelude::*;
use crate::text::opt_text;
use crate::db::subscription_entry::SubscriptionEntry;
use crate::util::{remove_invalid_chars_from_input, sanitized, timestamp_now};

verus! {

broadcast use vstd::string::group_string_axioms;

/// Title of an exported subscription list.
pub const EXPORT_TITLE: &'static str = "GrassFeeder Export";

/// One outline element of an OPML document: a feed or a folder of further outlines.
#[derive(Debug)]
pub struct Outline {
    pub text: String,
    pub outline_type: Option<String>,
    pub is_comment: Option<bool>,
    pub is_breakpoint: Option<bool>,
    pub created: Option<String>,
    pub category: Option<String>,
    pub outlines: Vec<Outline>,
    pub xml_url: Option<String>,
    pub description: Option<String>,
    pub html_url: Option<String>,
    pub language: Option<String>,
    pub title: Option<String>,
    pub version: Option<String>,
    pub url: Option<String>,
}

impl Default for Outline {
    /// An outline with empty text, no attributes and no children.
    fn default() -> (r: Outline)
        ensures
            r.text@ == Seq::<char>::empty() && r.outline_type is None && r.is_comment is None,
            r.is_breakpoint is None && r.created is None && r.category is None && r.outlines@.len() == 0,
            r.xml_url is None && r.description is None && r.html_url is None && r.language is None,
            r.title is None && r.version is None && r.url is None,
    {
        Outline {
            text: String::new(),
            outline_type: None,
            is_comment: None,
            is_breakpoint: None,
            created: None,
            category: None,
            outlines: Vec::new(),
            xml_url: None,
            description: None,
            html_url: None,
            language: None,
            title: None,
            version: None,
            url: None,
        }
    }
}

/// The outline that exports a subscription: of type `folder` or `rss`, with its feed
/// address and its name as text and title, and nothing else.
pub fn from_feed_source(fse: &SubscriptionEntry) -> (r: Outline)
    ensures
        opt_text(r.outline_type) == Some(if fse.is_folder { "folder"@ } else { "rss"@ }),
        opt_text(r.xml_url) == Some(fse.url@),
        r.text@ == fse.display_name@,
        opt_text(r.title) == Some(fse.display_name@),
        r.is_comment is None && r.is_breakpoint is None && r.created is None && r.category is None,
        r.outlines@.len() == 0 && r.description is None && r.html_url is None && r.language is None,
        r.version is None && r.url is None,
{
    Outline {
        text: fse.display_name.clone(),
        outline_type: if fse.is_folder { Some("folder".to_string()) } else { Some("rss".to_string()) },
        is_comment: None,
        is_breakpoint: None,
        created: None,
        category: None,
        outlines: Vec::new(),
        xml_url: Some(fse.url.clone()),
        description: None,
        html_url: None,
        language: None,
        title: Some(fse.display_name.clone()),
        version: None,
        url: None,
    }
}

/// Whether an outline is a folder: of type `folder`, or holding outlines.
pub open spec fn outline_is_folder(o: Outline) -> bool {
    opt_text(o.outline_type) == Some("folder"@) || o.outlines@.len() > 0
}

/// An outline of type `folder` is a folder, even an empty one; so is one that holds
/// outlines, whatever its type; any other outline is a feed.
pub proof fn lemma_outline_folder_kind(o: Outline)
    ensures
        opt_text(o.outline_type) == Some("folder"@) ==> outline_is_folder(o),
        o.outlines@.len() > 0 ==> outline_is_folder(o),
        opt_text(o.outline_type) != Some("folder"@) && o.outlines@.len() == 0 ==> !outline_is_folder(o),
{
}

/// A subscription exported as an outline (see `from_feed_source`) is read back as a
/// folder exactly where it is one: exporting and importing keep what kind it is.
pub proof fn lemma_export_keeps_folder_kind(fse: SubscriptionEntry, o: Outline)
    requires
        opt_text(o.outline_type) == Some(if fse.is_folder { "folder"@ } else { "rss"@ }),
        o.outlines@.len() == 0,
    ensures
        outline_is_folder(o) == fse.is_folder,
{
    reveal_strlit("folder");
    reveal_strlit("rss");
    assert("folder"@[0] != "rss"@[0]);
}

/// The feed address of an outline: its `xmlUrl`, else its `htmlUrl`, else nothing.
pub open spec fn outline_feed_url(o: Outline) -> Seq<char> {
    match (opt_text(o.xml_url), opt_text(o.html_url)) {
        (Some(x), Some(h)) => if x.len() == 0 { h } else { x },
        (Some(x), None) => x,
        (None, Some(h)) => h,
        (None, None) => Seq::empty(),
    }
}

/// The website address of an outline: its `htmlUrl` where a non-empty `xmlUrl` gives the
/// feed, else nothing.
pub open spec fn outline_website_url(o: Outline) -> Seq<char> {
    match (opt_text(o.xml_url), opt_text(o.html_url)) {
        (Some(x), Some(h)) => if x.len() == 0 { Seq::empty() } else { h },
        _ => Seq::empty(),
    }
}

/// Whether the text is `folder`.
fn is_folder_type(t: &String) -> (r: bool)
    ensures
        r == (t@ == "folder"@),
{
    let a = crate::text::chars_of(t.as_str());
    let b = crate::text::chars_of("folder");
    if a.len() != b.len() {
        return false;
    }
    let mut i: usize = 0;
    while i < a.len()
        invariant
            a.len() == b.len(),
            a@ == t@,
            b@ == "folder"@,
            i <= a.len(),
            forall|k: int| 0 <= k < i ==> a@[k] == b@[k],
        decreases a.len() - i,
    {
        if a[i] != b[i] {
            proof {
                assert(a@[i as int] != b@[i as int]);
            }
            return false;
        }
        i = i + 1;
    }
    proof {
        assert(a@ =~= b@);
    }
    true
}

/// The subscription stored for an imported outline, under `repo_parent_id` at
/// `folder_pos`: a folder or a feed (see `outline_is_folder`), shown with the folder or
/// the feed icon, its cleaned text as name, its addresses (see `outline_feed_url` and
/// `outline_website_url`), and the current time as the time of its last update.
pub fn from_outline(o: &Outline, repo_parent_id: isize, folder_pos: isize, folder_icon_id: usize, feed_icon_id: usize) -> (r: SubscriptionEntry)
    ensures
        r.subs_id == 0 && r.parent_subs_id == repo_parent_id && r.folder_position == folder_pos,
        r.is_folder == outline_is_folder(*o),
        r.icon_id == if outline_is_folder(*o) { folder_icon_id } else { feed_icon_id },
        opt_text(o.outline_type) == Some("folder"@) ==> r.is_folder && r.icon_id == folder_icon_id,
        o.outlines@.len() > 0 ==> r.is_folder && r.icon_id == folder_icon_id,
        opt_text(o.outline_type) != Some("folder"@) && o.outlines@.len() == 0 ==> !r.is_folder && r.icon_id
            == feed_icon_id,
        r.display_name@ == sanitized(o.text@),
        r.url@ == outline_feed_url(*o),
        r.website_url@ == outline_website_url(*o),
        r.updated_ext == 0 && r.updated_icon == 0 && !r.expanded && r.last_selected_msg == -1 && !r.deleted,
        r.tree_path is None && r.status == 0 && r.num_msg_all_unread is None && !r.is_dirty,
{
    let mut is_folderr: bool = false;
    if let Some(outl_type) = &o.outline_type {
        if is_folder_type(outl_type) {
            is_folderr = true;
        }
    }
    if o.outlines.len() > 0 {
        is_folderr = true;
    }
    let f_icon_id = if is_folderr { folder_icon_id } else { feed_icon_id };
    let mut feed_url = String::new();
    let mut websit_url = String::new();
    if let Some(x_u) = &o.xml_url {
        feed_url = x_u.clone();
    }
    if let Some(h_u) = &o.html_url {
        if crate::text::chars_of(feed_url.as_str()).len() == 0 {
            feed_url = h_u.clone();
        } else {
            websit_url = h_u.clone();
        }
    }
    let displayname = remove_invalid_chars_from_input(o.text.clone());
    SubscriptionEntry {
        subs_id: 0,
        display_name: displayname,
        is_folder: is_folderr,
        url: feed_url,
        icon_id: f_icon_id,
        parent_subs_id: repo_parent_id,
        folder_position: folder_pos,
        updated_ext: 0,
        updated_int: timestamp_now(),
        updated_icon: 0,
        expanded: false,
        website_url: websit_url,
        last_selected_msg: -1,
        deleted: false,
        tree_path: None,
        status: 0,
        num_msg_all_unread: None,
        is_dirty: false,
    }
}

} // verus!
