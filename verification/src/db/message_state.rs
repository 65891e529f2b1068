use std::collections::HashMap;
use vstd::prelude::*;
use crate::db::message::decompress;

verus! {

broadcast use vstd::std_specs::hash::group_hash_axioms;

/// What the message list remembers of one message.
#[derive(Debug)]
pub struct MessageState {
    pub msg_id: isize,
    /// list position, to set the cursor to
    pub gui_list_position: isize,
    pub msg_created_timestamp: i64,
    pub is_read_copy: bool,
    pub contents_author_categories_d: Option<(String, String, String)>,
    /// display text, decompressed
    pub title_d: String,
    pub subscription_id_copy: isize,
}

/// The order in which messages are walked: by creation time, and by id where two
/// messages were created at the same second.
pub open spec fn before(a: MessageState, b: MessageState) -> bool {
    a.msg_created_timestamp < b.msg_created_timestamp || (a.msg_created_timestamp
        == b.msg_created_timestamp && a.msg_id < b.msg_id)
}

/// Every entry is stored under its own message id.
pub open spec fn keyed_by_id(m: Map<isize, MessageState>) -> bool {
    forall|k: isize| #[trigger] m.contains_key(k) ==> m[k].msg_id == k
}

/// `j` is an unread message that comes before `cur`.
pub open spec fn unread_before(m: Map<isize, MessageState>, cur: isize, j: isize) -> bool {
    m.contains_key(j) && !m[j].is_read_copy && before(m[j], m[cur])
}

/// `j` is an unread message that comes after `cur`.
pub open spec fn unread_after(m: Map<isize, MessageState>, cur: isize, j: isize) -> bool {
    m.contains_key(j) && !m[j].is_read_copy && before(m[cur], m[j])
}

/// `e` is read, and so is every message before it.
pub open spec fn settled(m: Map<isize, MessageState>, e: isize) -> bool {
    &&& m.contains_key(e)
    &&& m[e].is_read_copy
    &&& forall|u: isize| #[trigger] m.contains_key(u) && !m[u].is_read_copy ==> before(m[e], m[u])
}

/// `j` is one of the messages named in `ids`.
pub open spec fn named(m: Map<isize, MessageState>, ids: Seq<i32>, j: isize) -> bool {
    m.contains_key(j) && ids.contains(j as i32)
}

/// Where a message id lives in `ids`, the list of distinct subscription ids of the
/// messages named in `ids`, in ascending order.
pub open spec fn subscription_ids_of(m: Map<isize, MessageState>, ids: Seq<i32>, r: Seq<isize>) -> bool {
    &&& forall|a: int, b: int| 0 <= a < b < r.len() ==> r[a] < r[b]
    &&& forall|x: isize| #[trigger] r.contains(x) <==> exists|j: isize| #[trigger] named(m, ids, j) && m[j].subscription_id_copy == x
}

/// The list position that `find_neighbour_message` reports, before it is moved up by one:
/// the highest non-negative position of a named message where there is one, else the
/// position of the last named message.
pub open spec fn raw_low_position(m: Map<isize, MessageState>, ids: Seq<i32>, w: isize) -> bool {
    &&& named(m, ids, w)
    &&& m[w].gui_list_position >= 0 ==> forall|j: isize| #[trigger] named(m, ids, j) && m[j].gui_list_position >= 0
        ==> m[j].gui_list_position <= m[w].gui_list_position
    &&& m[w].gui_list_position < 0 ==> forall|j: isize| #[trigger] named(m, ids, j) ==> m[j].gui_list_position < 0
        && !before(m[w], m[j])
}

/// One position up, where there is room.
pub open spec fn one_up(p: isize) -> isize {
    if p > 0 { (p - 1) as isize } else { p }
}

/// `c` is the earliest of the messages named in `ids`.
pub open spec fn first_named(m: Map<isize, MessageState>, ids: Seq<i32>, c: isize) -> bool {
    named(m, ids, c) && forall|j: isize| #[trigger] named(m, ids, j) ==> !before(m[j], m[c])
}

/// `id` is the message just before `c`, or `c` itself where `c` comes first.
pub open spec fn neighbour_of(m: Map<isize, MessageState>, c: isize, id: isize) -> bool {
    if exists|j: isize| #[trigger] m.contains_key(j) && before(m[j], m[c]) {
        &&& m.contains_key(id)
        &&& before(m[id], m[c])
        &&& forall|j: isize| #[trigger] m.contains_key(j) && before(m[j], m[c]) ==> !before(m[id], m[j])
    } else {
        id == c
    }
}

/// `id` is the earliest message whose list position is -1.
pub open spec fn first_unplaced(m: Map<isize, MessageState>, id: isize) -> bool {
    &&& m.contains_key(id)
    &&& m[id].gui_list_position == -1
    &&& forall|j: isize| #[trigger] m.contains_key(j) && m[j].gui_list_position == -1 ==> !before(m[j], m[id])
}

/// Whether `x` occurs in `ids`.
pub fn contains_i32(ids: &[i32], x: i32) -> (r: bool)
    ensures
        r == ids@.contains(x),
{
    let mut i: usize = 0;
    while i < ids.len()
        invariant
            i <= ids.len(),
            forall|y: int| 0 <= y < i ==> ids@[y] != x,
        decreases ids.len() - i,
    {
        if ids[i] == x {
            return true;
        }
        i = i + 1;
    }
    false
}

/// The state with its read flag set to `r`.
pub open spec fn with_read(st: MessageState, r: bool) -> MessageState {
    MessageState { is_read_copy: r, ..st }
}

/// The state with content, author and categories set.
pub open spec fn with_contents(st: MessageState, cac: (String, String, String)) -> MessageState {
    MessageState { contents_author_categories_d: Some(cac), ..st }
}

/// Puts `x` into the strictly ascending list `v`, unless it is there already.
pub fn insert_sorted_unique(v: &mut Vec<isize>, x: isize)
    requires
        forall|a: int, b: int| 0 <= a < b < old(v).len() ==> old(v)@[a] < old(v)@[b],
    ensures
        forall|a: int, b: int| 0 <= a < b < final(v).len() ==> final(v)@[a] < final(v)@[b],
        forall|y: isize| #[trigger] final(v)@.contains(y) <==> (old(v)@.contains(y) || y == x),
{
    let mut i: usize = 0;
    while i < v.len() && v[i] < x
        invariant
            i <= v.len(),
            forall|y: int| 0 <= y < i ==> v@[y] < x,
        decreases v.len() - i,
    {
        i = i + 1;
    }
    if i < v.len() && v[i] == x {
        return;
    }
    let ghost old_v = v@;
    v.insert(i, x);
    proof {
        assert(v@ =~= old_v.take(i as int).push(x) + old_v.skip(i as int));
        assert forall|y: isize| #[trigger] v@.contains(y) <==> (old_v.contains(y) || y == x) by {
            if old_v.contains(y) {
                let z = choose|z: int| 0 <= z < old_v.len() && old_v[z] == y;
                if z < i {
                    assert(v@[z] == y);
                } else {
                    assert(v@[z + 1] == y);
                }
            }
            if v@.contains(y) {
                let z = choose|z: int| 0 <= z < v@.len() && v@[z] == y;
                if z < i {
                    assert(old_v[z] == y);
                } else if z > i {
                    assert(old_v[z - 1] == y);
                }
            }
            if y == x {
                assert(v@[i as int] == x);
            }
        }
    }
}

/// Per-message state of the message list, keyed by message id.
pub struct MessageStateMap {
    msgmap: HashMap<isize, MessageState>,
}

impl MessageStateMap {
    /// The states, by message id.
    pub closed spec fn view(&self) -> Map<isize, MessageState> {
        self.msgmap@
    }

    /// The map is keyed by message id.
    pub open spec fn wf(&self) -> bool {
        keyed_by_id(self.view())
    }

    /// An empty map.
    pub fn new() -> (r: MessageStateMap)
        ensures
            r.view() == Map::<isize, MessageState>::empty(),
            r.wf(),
    {
        MessageStateMap { msgmap: HashMap::new() }
    }

    /// The keys, each once.
    fn key_list(&self) -> (v: Vec<isize>)
        ensures
            v@.to_set() == self.view().dom(),
            v@.no_duplicates(),
            forall|k: isize| #[trigger] self.view().contains_key(k) ==> v@.contains(k),
    {
        let mut v: Vec<isize> = Vec::new();
        let ghost rem = vstd::std_specs::iter::IteratorSpec::remaining(
            &vstd::std_specs::hash::spec_keys_iter(&self.msgmap),
        );
        for k in it: self.msgmap.keys()
            invariant
                it.seq() == rem,
                v@ == rem.take(it.index()).map_values(|r: &isize| *r),
        {
            v.push(*k);
        }
        proof {
            assert(rem.take(rem.len() as int) =~= rem);
            assert(v@ =~= rem.map_values(|r: &isize| *r));
            assert(rem.unref() =~= rem.map_values(|r: &isize| *r));
            assert forall|k: isize| #[trigger] self.view().contains_key(k) implies v@.contains(k) by {
                assert(v@.to_set().contains(k));
            }
        }
        v
    }

    /// Records a message; a non-empty compressed title is stored decompressed.
    pub fn insert(
        &mut self,
        msg_id_: isize,
        is_read: bool,
        list_pos: isize,
        ts_created: i64,
        title_compressed: String,
        subs_id: isize,
    )
        requires
            old(self).wf(),
        ensures
            final(self).wf(),
            final(self).view().dom() == old(self).view().dom().insert(msg_id_),
            forall|k: isize| k != msg_id_ && #[trigger] old(self).view().contains_key(k)
                ==> final(self).view()[k] == old(self).view()[k],
            ({
                let st = final(self).view()[msg_id_];
                &&& st.msg_id == msg_id_
                &&& st.gui_list_position == list_pos
                &&& st.msg_created_timestamp == ts_created
                &&& st.is_read_copy == is_read
                &&& st.contents_author_categories_d is None
                &&& st.subscription_id_copy == subs_id
                &&& st.title_d@ == if title_compressed@.len() == 0 {
                    Seq::<char>::empty()
                } else {
                    crate::db::message::decompressed(title_compressed@)
                }
            }),
    {
        let title_d = if !title_compressed.as_str().is_empty() {
            decompress(title_compressed.as_str())
        } else {
            String::new()
        };
        let st = MessageState {
            gui_list_position: list_pos,
            msg_created_timestamp: ts_created,
            is_read_copy: is_read,
            msg_id: msg_id_,
            subscription_id_copy: subs_id,
            contents_author_categories_d: None,
            title_d,
        };
        self.msgmap.insert(msg_id_, st);
    }

    /// Whether the message is known and read.
    pub fn get_isread(&self, msg_id: isize) -> (r: bool)
        ensures
            r == (self.view().contains_key(msg_id) && self.view()[msg_id].is_read_copy),
    {
        match self.msgmap.get(&msg_id) {
            Some(st) => st.is_read_copy,
            None => false,
        }
    }

    /// The list position of a known message (cut to 32 bits), else 0.
    pub fn get_gui_pos(&self, msg_id: isize) -> (r: u32)
        ensures
            r == if self.view().contains_key(msg_id) {
                self.view()[msg_id].gui_list_position as u32
            } else {
                0u32
            },
    {
        match self.msgmap.get(&msg_id) {
            Some(st) => st.gui_list_position as u32,
            None => 0,
        }
    }

    /// The display title of a known message.
    pub fn get_title(&self, msg_id: isize) -> (r: Option<String>)
        ensures
            match r {
                Some(t) => self.view().contains_key(msg_id) && t@ == self.view()[msg_id].title_d@,
                None => !self.view().contains_key(msg_id),
            },
    {
        match self.msgmap.get(&msg_id) {
            Some(st) => Some(st.title_d.clone()),
            None => None,
        }
    }

    /// Content, author and categories of a known message, where they were set.
    pub fn get_contents_author_categories(&self, msg_id: isize) -> (r: Option<(String, String, String)>)
        ensures
            match r {
                Some((c, a, g)) => self.view().contains_key(msg_id)
                    && (self.view()[msg_id].contents_author_categories_d matches Some((c0, a0, g0))
                    && c@ == c0@ && a@ == a0@ && g@ == g0@),
                None => !self.view().contains_key(msg_id)
                    || self.view()[msg_id].contents_author_categories_d is None,
            },
    {
        match self.msgmap.get(&msg_id) {
            Some(st) => match &st.contents_author_categories_d {
                Some((c, a, g)) => Some((c.clone(), a.clone(), g.clone())),
                None => None,
            },
            None => None,
        }
    }

    /// Whether a message is known.
    pub fn contains(&self, msg_id: isize) -> (r: bool)
        ensures
            r == self.view().contains_key(msg_id),
    {
        self.msgmap.contains_key(&msg_id)
    }

    /// Forgets all messages.
    pub fn clear(&mut self)
        ensures
            final(self).view() == Map::<isize, MessageState>::empty(),
            final(self).wf(),
    {
        self.msgmap.clear();
    }

    /// Searches the next unread message, walking from `current_msg_id` towards earlier
    /// messages when `seek_to_later` holds and towards later ones otherwise. None where
    /// the current message is unknown or itself unread, or where no unread one follows.
    pub fn find_unread_message(&self, current_msg_id: isize, seek_to_later: bool) -> (r: Option<isize>)
        requires
            self.wf(),
        ensures
            !(self.view().contains_key(current_msg_id) && self.view()[current_msg_id].is_read_copy)
                ==> r is None,
            self.view().contains_key(current_msg_id) && self.view()[current_msg_id].is_read_copy
                && seek_to_later ==> match r {
                Some(id) => unread_before(self.view(), current_msg_id, id) && forall|j: isize|
                    #[trigger] unread_before(self.view(), current_msg_id, j) ==> !before(self.view()[id], self.view()[j]),
                None => forall|j: isize| !#[trigger] unread_before(self.view(), current_msg_id, j),
            },
            self.view().contains_key(current_msg_id) && self.view()[current_msg_id].is_read_copy
                && !seek_to_later ==> match r {
                Some(id) => unread_after(self.view(), current_msg_id, id) && forall|j: isize|
                    #[trigger] unread_after(self.view(), current_msg_id, j) ==> !before(self.view()[j], self.view()[id]),
                None => forall|j: isize| !#[trigger] unread_after(self.view(), current_msg_id, j),
            },
    {
        let (cur_ts, cur_read) = match self.msgmap.get(&current_msg_id) {
            Some(st) => (st.msg_created_timestamp, st.is_read_copy),
            None => { return None; },
        };
        if !cur_read {
            return None;
        }
        let ghost m = self.view();
        let keys = self.key_list();
        let mut best: Option<isize> = None;
        let mut best_ts: i64 = 0;
        let mut i: usize = 0;
        while i < keys.len()
            invariant
                m == self.view(),
                keyed_by_id(m),
                m.contains_key(current_msg_id),
                m[current_msg_id].msg_created_timestamp == cur_ts,
                m[current_msg_id].is_read_copy,
                i <= keys.len(),
                forall|k: isize| #[trigger] m.contains_key(k) ==> keys@.contains(k),
                forall|x: int| 0 <= x < keys.len() ==> m.contains_key(#[trigger] keys@[x]),
                seek_to_later ==> match best {
                    Some(b) => unread_before(m, current_msg_id, b) && m[b].msg_created_timestamp == best_ts
                        && forall|x: int| 0 <= x < i && #[trigger] unread_before(m, current_msg_id, keys@[x])
                            ==> !before(m[b], m[keys@[x]]),
                    None => forall|x: int| 0 <= x < i ==> !#[trigger] unread_before(m, current_msg_id, keys@[x]),
                },
                !seek_to_later ==> match best {
                    Some(b) => unread_after(m, current_msg_id, b) && m[b].msg_created_timestamp == best_ts
                        && forall|x: int| 0 <= x < i && #[trigger] unread_after(m, current_msg_id, keys@[x])
                            ==> !before(m[keys@[x]], m[b]),
                    None => forall|x: int| 0 <= x < i ==> !#[trigger] unread_after(m, current_msg_id, keys@[x]),
                },
            decreases keys.len() - i,
        {
            let k = keys[i];
            proof { assert(m.contains_key(keys@[i as int])); }
            let st = self.msgmap.get(&k).unwrap();
            let ts = st.msg_created_timestamp;
            if !st.is_read_copy {
                let candidate = if seek_to_later {
                    ts < cur_ts || (ts == cur_ts && k < current_msg_id)
                } else {
                    cur_ts < ts || (ts == cur_ts && current_msg_id < k)
                };
                if candidate {
                    let better = match best {
                        None => true,
                        Some(b) => if seek_to_later {
                            best_ts < ts || (best_ts == ts && b < k)
                        } else {
                            ts < best_ts || (best_ts == ts && k < b)
                        },
                    };
                    if better {
                        best = Some(k);
                        best_ts = ts;
                    }
                }
            }
            i = i + 1;
        }
        proof {
            if seek_to_later {
                match best {
                    Some(b) => {
                        assert forall|j: isize| #[trigger] unread_before(m, current_msg_id, j)
                            implies !before(m[b], m[j]) by {
                            let x = choose|x: int| 0 <= x < keys.len() && keys@[x] == j;
                        }
                    },
                    None => {
                        assert forall|j: isize| !#[trigger] unread_before(m, current_msg_id, j) by {
                            if unread_before(m, current_msg_id, j) {
                                let x = choose|x: int| 0 <= x < keys.len() && keys@[x] == j;
                            }
                        }
                    },
                }
            } else {
                match best {
                    Some(b) => {
                        assert forall|j: isize| #[trigger] unread_after(m, current_msg_id, j)
                            implies !before(m[j], m[b]) by {
                            let x = choose|x: int| 0 <= x < keys.len() && keys@[x] == j;
                        }
                    },
                    None => {
                        assert forall|j: isize| !#[trigger] unread_after(m, current_msg_id, j) by {
                            if unread_after(m, current_msg_id, j) {
                                let x = choose|x: int| 0 <= x < keys.len() && keys@[x] == j;
                            }
                        }
                    },
                }
            }
        }
        best
    }

    /// The message just before the earliest unread one: the latest message that is read
    /// and has no unread message before it. None where there is no such message.
    pub fn find_before_earliest_unread(&self) -> (r: Option<isize>)
        requires
            self.wf(),
        ensures
            match r {
                Some(e) => settled(self.view(), e) && forall|j: isize| #[trigger] settled(self.view(), j)
                    ==> !before(self.view()[e], self.view()[j]),
                None => forall|j: isize| !#[trigger] settled(self.view(), j),
            },
    {
        let ghost m = self.view();
        let keys = self.key_list();
        // the earliest unread message
        let mut first_unread: Option<isize> = None;
        let mut fu_ts: i64 = 0;
        let mut i: usize = 0;
        while i < keys.len()
            invariant
                m == self.view(),
                keyed_by_id(m),
                i <= keys.len(),
                forall|k: isize| #[trigger] m.contains_key(k) ==> keys@.contains(k),
                forall|x: int| 0 <= x < keys.len() ==> m.contains_key(#[trigger] keys@[x]),
                match first_unread {
                    Some(u) => m.contains_key(u) && !m[u].is_read_copy && m[u].msg_created_timestamp == fu_ts
                        && forall|x: int| 0 <= x < i && !m[#[trigger] keys@[x]].is_read_copy
                            ==> !before(m[keys@[x]], m[u]),
                    None => forall|x: int| 0 <= x < i ==> m[#[trigger] keys@[x]].is_read_copy,
                },
            decreases keys.len() - i,
        {
            let k = keys[i];
            proof { assert(m.contains_key(keys@[i as int])); }
            let st = self.msgmap.get(&k).unwrap();
            let ts = st.msg_created_timestamp;
            if !st.is_read_copy {
                let better = match first_unread {
                    None => true,
                    Some(u) => ts < fu_ts || (ts == fu_ts && k < u),
                };
                if better {
                    first_unread = Some(k);
                    fu_ts = ts;
                }
            }
            i = i + 1;
        }
        proof {
            match first_unread {
                Some(u) => {
                    assert forall|j: isize| #[trigger] m.contains_key(j) && !m[j].is_read_copy
                        implies !before(m[j], m[u]) by {
                        let x = choose|x: int| 0 <= x < keys.len() && keys@[x] == j;
                    }
                },
                None => {
                    assert forall|j: isize| #[trigger] m.contains_key(j) implies m[j].is_read_copy by {
                        let x = choose|x: int| 0 <= x < keys.len() && keys@[x] == j;
                    }
                },
            }
        }
        // the latest message before it
        let mut best: Option<isize> = None;
        let mut best_ts: i64 = 0;
        let mut i: usize = 0;
        while i < keys.len()
            invariant
                m == self.view(),
                keyed_by_id(m),
                i <= keys.len(),
                forall|k: isize| #[trigger] m.contains_key(k) ==> keys@.contains(k),
                forall|x: int| 0 <= x < keys.len() ==> m.contains_key(#[trigger] keys@[x]),
                match first_unread {
                    Some(u) => m.contains_key(u) && !m[u].is_read_copy && m[u].msg_created_timestamp == fu_ts
                        && forall|j: isize| #[trigger] m.contains_key(j) && !m[j].is_read_copy
                            ==> !before(m[j], m[u]),
                    None => forall|j: isize| #[trigger] m.contains_key(j) ==> m[j].is_read_copy,
                },
                match best {
                    Some(b) => settled(m, b) && m[b].msg_created_timestamp == best_ts
                        && forall|x: int| 0 <= x < i && #[trigger] settled(m, keys@[x])
                            ==> !before(m[b], m[keys@[x]]),
                    None => forall|x: int| 0 <= x < i ==> !#[trigger] settled(m, keys@[x]),
                },
            decreases keys.len() - i,
        {
            let k = keys[i];
            proof { assert(m.contains_key(keys@[i as int])); }
            let st = self.msgmap.get(&k).unwrap();
            let ts = st.msg_created_timestamp;
            let below = match first_unread {
                None => true,
                Some(u) => ts < fu_ts || (ts == fu_ts && k < u),
            };
            proof {
                if below {
                    assert forall|w: isize| #[trigger] m.contains_key(w) && !m[w].is_read_copy
                        implies before(m[k], m[w]) by {
                        let u = first_unread->0;
                        assert(!before(m[w], m[u]));
                    }
                } else {
                    let u = first_unread->0;
                    assert(!before(m[k], m[u]));
                    assert(!settled(m, k));
                }
            }
            if st.is_read_copy && below {
                let better = match best {
                    None => true,
                    Some(b) => best_ts < ts || (best_ts == ts && b < k),
                };
                if better {
                    best = Some(k);
                    best_ts = ts;
                }
            }
            i = i + 1;
        }
        proof {
            match best {
                Some(b) => {
                    assert forall|j: isize| #[trigger] settled(m, j) implies !before(m[b], m[j]) by {
                        let x = choose|x: int| 0 <= x < keys.len() && keys@[x] == j;
                    }
                },
                None => {
                    assert forall|j: isize| !#[trigger] settled(m, j) by {
                        if settled(m, j) {
                            let x = choose|x: int| 0 <= x < keys.len() && keys@[x] == j;
                        }
                    }
                },
            }
        }
        best
    }

    /// The message to go to after the messages `del_msg_ids` are deleted, and the list
    /// position for it. The message is the one just before the earliest deleted message
    /// (or that message itself where it comes first); the position is one above the
    /// highest position of a deleted message. Where no deleted message is known, the
    /// earliest message at list position -1 is reported with position -1.
    pub fn find_neighbour_message(&self, del_msg_ids: &[i32]) -> (r: Option<(isize, isize)>)
        requires
            self.wf(),
        ensures
            (exists|j: isize| #[trigger] named(self.view(), del_msg_ids@, j)) ==> match r {
                Some((id, pos)) => (exists|w: isize| #[trigger] raw_low_position(self.view(), del_msg_ids@, w)
                    && pos == one_up(self.view()[w].gui_list_position))
                    && exists|c: isize| #[trigger] first_named(self.view(), del_msg_ids@, c)
                    && neighbour_of(self.view(), c, id),
                None => false,
            },
            !(exists|j: isize| #[trigger] named(self.view(), del_msg_ids@, j)) ==> match r {
                Some((id, pos)) => pos == -1 && first_unplaced(self.view(), id),
                None => forall|j: isize| #[trigger] self.view().contains_key(j)
                    ==> self.view()[j].gui_list_position != -1,
            },
    {
        let ghost m = self.view();
        let ghost ids = del_msg_ids@;
        let keys = self.key_list();
        let mut cur: Option<isize> = None;
        let mut cur_ts: i64 = 0;
        // highest non-negative position of a named message
        let mut nonneg: Option<isize> = None;
        let mut nonneg_pos: isize = 0;
        // the latest named message
        let mut last: Option<isize> = None;
        let mut last_ts: i64 = 0;
        let mut i: usize = 0;
        while i < keys.len()
            invariant
                m == self.view(),
                ids == del_msg_ids@,
                keyed_by_id(m),
                i <= keys.len(),
                forall|k: isize| #[trigger] m.contains_key(k) ==> keys@.contains(k),
                forall|x: int| 0 <= x < keys.len() ==> m.contains_key(#[trigger] keys@[x]),
                match cur {
                    Some(c) => named(m, ids, c) && m[c].msg_created_timestamp == cur_ts
                        && forall|x: int| 0 <= x < i && #[trigger] named(m, ids, keys@[x])
                            ==> !before(m[keys@[x]], m[c]),
                    None => forall|x: int| 0 <= x < i ==> !#[trigger] named(m, ids, keys@[x]),
                },
                match last {
                    Some(l) => named(m, ids, l) && m[l].msg_created_timestamp == last_ts
                        && forall|x: int| 0 <= x < i && #[trigger] named(m, ids, keys@[x])
                            ==> !before(m[l], m[keys@[x]]),
                    None => forall|x: int| 0 <= x < i ==> !#[trigger] named(m, ids, keys@[x]),
                },
                match nonneg {
                    Some(w) => named(m, ids, w) && m[w].gui_list_position == nonneg_pos && nonneg_pos >= 0
                        && forall|x: int| 0 <= x < i && #[trigger] named(m, ids, keys@[x])
                            && m[keys@[x]].gui_list_position >= 0 ==> m[keys@[x]].gui_list_position <= nonneg_pos,
                    None => forall|x: int| 0 <= x < i && #[trigger] named(m, ids, keys@[x])
                        ==> m[keys@[x]].gui_list_position < 0,
                },
            decreases keys.len() - i,
        {
            let k = keys[i];
            proof { assert(m.contains_key(keys@[i as int])); }
            let st = self.msgmap.get(&k).unwrap();
            let ts = st.msg_created_timestamp;
            let pos = st.gui_list_position;
            if contains_i32(del_msg_ids, k as i32) {
                let earlier = match cur {
                    None => true,
                    Some(c) => ts < cur_ts || (ts == cur_ts && k < c),
                };
                if earlier {
                    cur = Some(k);
                    cur_ts = ts;
                }
                let later = match last {
                    None => true,
                    Some(l) => last_ts < ts || (ts == last_ts && l < k),
                };
                if later {
                    last = Some(k);
                    last_ts = ts;
                }
                if pos >= 0 {
                    let higher = match nonneg {
                        None => true,
                        Some(_) => pos > nonneg_pos,
                    };
                    if higher {
                        nonneg = Some(k);
                        nonneg_pos = pos;
                    }
                }
            }
            i = i + 1;
        }
        match cur {
            None => {
                proof {
                    assert forall|j: isize| !#[trigger] named(m, ids, j) by {
                        if named(m, ids, j) {
                            let x = choose|x: int| 0 <= x < keys.len() && keys@[x] == j;
                        }
                    }
                }
                // the earliest message at position -1
                let mut found: Option<isize> = None;
                let mut f_ts: i64 = 0;
                let mut i: usize = 0;
                while i < keys.len()
                    invariant
                        m == self.view(),
                        keyed_by_id(m),
                        i <= keys.len(),
                        forall|k: isize| #[trigger] m.contains_key(k) ==> keys@.contains(k),
                        forall|x: int| 0 <= x < keys.len() ==> m.contains_key(#[trigger] keys@[x]),
                        match found {
                            Some(f) => m.contains_key(f) && m[f].gui_list_position == -1
                                && m[f].msg_created_timestamp == f_ts
                                && forall|x: int| 0 <= x < i && m[#[trigger] keys@[x]].gui_list_position == -1
                                    ==> !before(m[keys@[x]], m[f]),
                            None => forall|x: int| 0 <= x < i ==> m[#[trigger] keys@[x]].gui_list_position != -1,
                        },
                    decreases keys.len() - i,
                {
                    let k = keys[i];
                    proof { assert(m.contains_key(keys@[i as int])); }
                    let st = self.msgmap.get(&k).unwrap();
                    let ts = st.msg_created_timestamp;
                    if st.gui_list_position == -1 {
                        let earlier = match found {
                            None => true,
                            Some(f) => ts < f_ts || (ts == f_ts && k < f),
                        };
                        if earlier {
                            found = Some(k);
                            f_ts = ts;
                        }
                    }
                    i = i + 1;
                }
                proof {
                    match found {
                        Some(f) => {
                            assert forall|j: isize| #[trigger] m.contains_key(j) && m[j].gui_list_position == -1
                                implies !before(m[j], m[f]) by {
                                let x = choose|x: int| 0 <= x < keys.len() && keys@[x] == j;
                            }
                        },
                        None => {
                            assert forall|j: isize| #[trigger] m.contains_key(j)
                                implies m[j].gui_list_position != -1 by {
                                let x = choose|x: int| 0 <= x < keys.len() && keys@[x] == j;
                            }
                        },
                    }
                }
                match found {
                    Some(f) => Some((f, -1)),
                    None => None,
                }
            },
            Some(c) => {
                let (w, raw) = match nonneg {
                    Some(w) => (w, nonneg_pos),
                    None => {
                        let l = last.unwrap();
                        let lp = self.msgmap.get(&l).unwrap().gui_list_position;
                        (l, lp)
                    },
                };
                proof {
                    assert forall|j: isize| #[trigger] named(m, ids, j) implies !before(m[j], m[c]) by {
                        let x = choose|x: int| 0 <= x < keys.len() && keys@[x] == j;
                    }
                    if nonneg is Some {
                        assert forall|j: isize| #[trigger] named(m, ids, j) && m[j].gui_list_position >= 0
                            implies m[j].gui_list_position <= m[w].gui_list_position by {
                            let x = choose|x: int| 0 <= x < keys.len() && keys@[x] == j;
                        }
                    } else {
                        assert forall|j: isize| #[trigger] named(m, ids, j)
                            implies m[j].gui_list_position < 0 && !before(m[w], m[j]) by {
                            let x = choose|x: int| 0 <= x < keys.len() && keys@[x] == j;
                        }
                    }
                    assert(raw_low_position(m, ids, w));
                    assert(first_named(m, ids, c));
                }
                let low = if raw > 0 { raw - 1 } else { raw };
                // the latest message before the earliest named one
                let mut prev: Option<isize> = None;
                let mut p_ts: i64 = 0;
                let mut i: usize = 0;
                while i < keys.len()
                    invariant
                        m == self.view(),
                        keyed_by_id(m),
                        i <= keys.len(),
                        m.contains_key(c),
                        m[c].msg_created_timestamp == cur_ts,
                        forall|k: isize| #[trigger] m.contains_key(k) ==> keys@.contains(k),
                        forall|x: int| 0 <= x < keys.len() ==> m.contains_key(#[trigger] keys@[x]),
                        match prev {
                            Some(p) => m.contains_key(p) && before(m[p], m[c])
                                && m[p].msg_created_timestamp == p_ts
                                && forall|x: int| 0 <= x < i && #[trigger] before(m[keys@[x]], m[c])
                                    ==> !before(m[p], m[keys@[x]]),
                            None => forall|x: int| 0 <= x < i ==> !#[trigger] before(m[keys@[x]], m[c]),
                        },
                    decreases keys.len() - i,
                {
                    let k = keys[i];
                    proof { assert(m.contains_key(keys@[i as int])); }
                    let st = self.msgmap.get(&k).unwrap();
                    let ts = st.msg_created_timestamp;
                    if ts < cur_ts || (ts == cur_ts && k < c) {
                        let later = match prev {
                            None => true,
                            Some(p) => p_ts < ts || (ts == p_ts && p < k),
                        };
                        if later {
                            prev = Some(k);
                            p_ts = ts;
                        }
                    }
                    i = i + 1;
                }
                let id = match prev {
                    Some(p) => p,
                    None => c,
                };
                proof {
                    match prev {
                        Some(p) => {
                            assert forall|j: isize| #[trigger] m.contains_key(j) && before(m[j], m[c])
                                implies !before(m[p], m[j]) by {
                                let x = choose|x: int| 0 <= x < keys.len() && keys@[x] == j;
                            }
                        },
                        None => {
                            assert forall|j: isize| !(#[trigger] m.contains_key(j) && before(m[j], m[c])) by {
                                if m.contains_key(j) && before(m[j], m[c]) {
                                    let x = choose|x: int| 0 <= x < keys.len() && keys@[x] == j;
                                }
                            }
                        },
                    }
                    assert(neighbour_of(m, c, id));
                }
                Some((id, low))
            },
        }
    }

    /// The latest and the earliest message by creation time:
    /// (latest id, latest timestamp, earliest id, earliest timestamp).
    /// The latest is only looked for above timestamp 0 and the earliest below `i64::MAX`;
    /// where none is found, the id is -1 and the timestamp stays at that bound.
    pub fn find_latest_earliest_created_timestamp(&self) -> (r: (isize, i64, isize, i64))
        ensures
            (forall|k: isize| #[trigger] self.view().contains_key(k) ==> self.view()[k].msg_created_timestamp <= 0)
                ==> r.0 == -1 && r.1 == 0,
            (exists|k: isize| #[trigger] self.view().contains_key(k) && self.view()[k].msg_created_timestamp > 0)
                ==> self.view().contains_key(r.0) && r.1 == self.view()[r.0].msg_created_timestamp
                && forall|k: isize| #[trigger] self.view().contains_key(k)
                    ==> self.view()[k].msg_created_timestamp <= r.1,
            (forall|k: isize| #[trigger] self.view().contains_key(k)
                ==> self.view()[k].msg_created_timestamp == i64::MAX) ==> r.2 == -1 && r.3 == i64::MAX,
            (exists|k: isize| #[trigger] self.view().contains_key(k)
                && self.view()[k].msg_created_timestamp < i64::MAX)
                ==> self.view().contains_key(r.2) && r.3 == self.view()[r.2].msg_created_timestamp
                && forall|k: isize| #[trigger] self.view().contains_key(k)
                    ==> self.view()[k].msg_created_timestamp >= r.3,
    {
        let ghost m = self.view();
        let keys = self.key_list();
        let mut highest_created_timestamp: i64 = 0;
        let mut highest_ts_repo_id: isize = -1;
        let mut earliest_created_timestamp: i64 = i64::MAX;
        let mut earliest_ts_repo_id: isize = -1;
        let ghost mut hi_found = false;
        let ghost mut lo_found = false;
        let mut i: usize = 0;
        while i < keys.len()
            invariant
                m == self.view(),
                i <= keys.len(),
                forall|k: isize| #[trigger] m.contains_key(k) ==> keys@.contains(k),
                forall|x: int| 0 <= x < keys.len() ==> m.contains_key(#[trigger] keys@[x]),
                !hi_found ==> highest_created_timestamp == 0 && highest_ts_repo_id == -1,
                hi_found ==> m.contains_key(highest_ts_repo_id)
                    && m[highest_ts_repo_id].msg_created_timestamp == highest_created_timestamp
                    && highest_created_timestamp > 0,
                forall|x: int| 0 <= x < i ==> m[#[trigger] keys@[x]].msg_created_timestamp <= highest_created_timestamp,
                !lo_found ==> earliest_created_timestamp == i64::MAX && earliest_ts_repo_id == -1,
                lo_found ==> m.contains_key(earliest_ts_repo_id)
                    && m[earliest_ts_repo_id].msg_created_timestamp == earliest_created_timestamp
                    && earliest_created_timestamp < i64::MAX,
                forall|x: int| 0 <= x < i ==> m[#[trigger] keys@[x]].msg_created_timestamp >= earliest_created_timestamp,
            decreases keys.len() - i,
        {
            let k = keys[i];
            proof { assert(m.contains_key(keys@[i as int])); }
            let st = self.msgmap.get(&k).unwrap();
            if st.msg_created_timestamp > highest_created_timestamp {
                highest_created_timestamp = st.msg_created_timestamp;
                highest_ts_repo_id = k;
                proof { hi_found = true; }
            }
            if st.msg_created_timestamp < earliest_created_timestamp {
                earliest_created_timestamp = st.msg_created_timestamp;
                earliest_ts_repo_id = k;
                proof { lo_found = true; }
            }
            i = i + 1;
        }
        proof {
            assert forall|k: isize| #[trigger] m.contains_key(k) implies m[k].msg_created_timestamp
                <= highest_created_timestamp && m[k].msg_created_timestamp >= earliest_created_timestamp by {
                let x = choose|x: int| 0 <= x < keys.len() && keys@[x] == k;
            }
        }
        (highest_ts_repo_id, highest_created_timestamp, earliest_ts_repo_id, earliest_created_timestamp)
    }

    /// The distinct subscription ids of the messages named in `msg_ids`, ascending.
    pub fn get_subscription_ids(&self, msg_ids: &[i32]) -> (r: Vec<isize>)
        ensures
            subscription_ids_of(self.view(), msg_ids@, r@),
    {
        let ghost m = self.view();
        let keys = self.key_list();
        let mut subs_ids: Vec<isize> = Vec::new();
        let mut i: usize = 0;
        while i < keys.len()
            invariant
                m == self.view(),
                i <= keys.len(),
                forall|k: isize| #[trigger] m.contains_key(k) ==> keys@.contains(k),
                forall|x: int| 0 <= x < keys.len() ==> m.contains_key(#[trigger] keys@[x]),
                forall|a: int, b: int| 0 <= a < b < subs_ids.len() ==> subs_ids@[a] < subs_ids@[b],
                forall|y: isize| #[trigger] subs_ids@.contains(y) <==> exists|x: int| 0 <= x < i
                    && #[trigger] named(m, msg_ids@, keys@[x]) && m[keys@[x]].subscription_id_copy == y,
            decreases keys.len() - i,
        {
            let k = keys[i];
            proof { assert(m.contains_key(keys@[i as int])); }
            let st = self.msgmap.get(&k).unwrap();
            let ghost before_ins = subs_ids@;
            if contains_i32(msg_ids, k as i32) {
                insert_sorted_unique(&mut subs_ids, st.subscription_id_copy);
            }
            proof {
                assert forall|y: isize| #[trigger] subs_ids@.contains(y) <==> exists|x: int| 0 <= x < i + 1
                    && #[trigger] named(m, msg_ids@, keys@[x]) && m[keys@[x]].subscription_id_copy == y by {
                    if subs_ids@.contains(y) && !before_ins.contains(y) {
                        assert(named(m, msg_ids@, keys@[i as int]));
                    }
                    if exists|x: int| 0 <= x < i + 1 && #[trigger] named(m, msg_ids@, keys@[x])
                        && m[keys@[x]].subscription_id_copy == y {
                        let x = choose|x: int| 0 <= x < i + 1 && #[trigger] named(m, msg_ids@, keys@[x])
                            && m[keys@[x]].subscription_id_copy == y;
                        if x < i {
                            assert(before_ins.contains(y));
                        }
                    }
                }
            }
            i = i + 1;
        }
        proof {
            assert forall|y: isize| #[trigger] subs_ids@.contains(y) <==> exists|j: isize|
                #[trigger] named(m, msg_ids@, j) && m[j].subscription_id_copy == y by {
                if exists|j: isize| #[trigger] named(m, msg_ids@, j) && m[j].subscription_id_copy == y {
                    let j = choose|j: isize| #[trigger] named(m, msg_ids@, j) && m[j].subscription_id_copy == y;
                    let x = choose|x: int| 0 <= x < keys.len() && keys@[x] == j;
                    assert(named(m, msg_ids@, keys@[x]));
                }
            }
        }
        subs_ids
    }

    /// Sets the read flag of every message named in `msg_ids`.
    pub fn set_read_many(&mut self, msg_ids: &[i32], is_read: bool)
        requires
            old(self).wf(),
        ensures
            final(self).wf(),
            final(self).view().dom() == old(self).view().dom(),
            forall|k: isize| #[trigger] old(self).view().contains_key(k) ==> final(self).view()[k]
                == if msg_ids@.contains(k as i32) {
                    with_read(old(self).view()[k], is_read)
                } else {
                    old(self).view()[k]
                },
    {
        let ghost m0 = self.view();
        let keys = self.key_list();
        let mut i: usize = 0;
        while i < keys.len()
            invariant
                keyed_by_id(self.view()),
                self.view().dom() == m0.dom(),
                keys@.no_duplicates(),
                i <= keys.len(),
                forall|k: isize| #[trigger] m0.contains_key(k) ==> keys@.contains(k),
                forall|x: int| 0 <= x < keys.len() ==> m0.contains_key(#[trigger] keys@[x]),
                forall|x: int| 0 <= x < i ==> self.view()[#[trigger] keys@[x]] == if msg_ids@.contains(keys@[x] as i32) {
                    with_read(m0[keys@[x]], is_read)
                } else {
                    m0[keys@[x]]
                },
                forall|x: int| i <= x < keys.len() ==> self.view()[#[trigger] keys@[x]] == m0[keys@[x]],
            decreases keys.len() - i,
        {
            let k = keys[i];
            proof { assert(m0.contains_key(keys@[i as int])); }
            if contains_i32(msg_ids, k as i32) {
                let mut st = self.msgmap.remove(&k).unwrap();
                st.is_read_copy = is_read;
                self.msgmap.insert(k, st);
            }
            proof {
                assert forall|x: int| i < x < keys.len() implies keys@[x] != k by {
                    assert(keys@[x] != keys@[i as int]);
                }
                assert forall|x: int| 0 <= x < i implies keys@[x] != k by {
                    assert(keys@[x] != keys@[i as int]);
                }
            }
            i = i + 1;
        }
        proof {
            assert forall|k: isize| #[trigger] m0.contains_key(k) implies self.view()[k]
                == if msg_ids@.contains(k as i32) {
                    with_read(m0[k], is_read)
                } else {
                    m0[k]
                } by {
                let x = choose|x: int| 0 <= x < keys.len() && keys@[x] == k;
            }
        }
    }

    /// Stores content, author and categories of a known message.
    pub fn set_contents_author_categories(&mut self, msg_id: isize, co_au_ca: &(String, String, String))
        requires
            old(self).wf(),
        ensures
            final(self).wf(),
            final(self).view().dom() == old(self).view().dom(),
            forall|k: isize| k != msg_id && #[trigger] old(self).view().contains_key(k)
                ==> final(self).view()[k] == old(self).view()[k],
            old(self).view().contains_key(msg_id) ==> final(self).view()[msg_id]
                == with_contents(old(self).view()[msg_id], *co_au_ca),
    {
        if self.msgmap.contains_key(&msg_id) {
            let mut st = self.msgmap.remove(&msg_id).unwrap();
            let (c, a, g) = co_au_ca;
            st.contents_author_categories_d = Some((c.clone(), a.clone(), g.clone()));
            self.msgmap.insert(msg_id, st);
            proof {
                assert(final(self).view().dom() =~= old(self).view().dom());
            }
        }
    }
}

impl Default for MessageStateMap {
    /// An empty map.
    fn default() -> (r: MessageStateMap)
        ensures
            r.view() == Map::<isize, MessageState>::empty(),
            r.wf(),
    {
        MessageStateMap::new()
    }
}

} // verus!
