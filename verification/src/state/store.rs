//! The links of the service, keyed by their shortname.

use vstd::prelude::*;
use vstd::string::*;

use super::{Link, LinkModel};

verus! {

/// No two entries of `s` share a shortname.
pub open spec fn unique_shortnames(s: Seq<LinkModel>) -> bool {
    forall|i: int, j: int|
        #![trigger s[i], s[j]]
        0 <= i < s.len() && 0 <= j < s.len() && i != j ==> s[i].shortname != s[j].shortname
}

/// Some entry of `s` has the shortname `k`.
pub open spec fn holds_key(s: Seq<LinkModel>, k: Seq<char>) -> bool {
    exists|i: int| 0 <= i < s.len() && #[trigger] s[i].shortname == k
}

/// An index of `s` whose entry has the shortname `k`.
pub open spec fn index_of_key(s: Seq<LinkModel>, k: Seq<char>) -> int {
    choose|i: int| 0 <= i < s.len() && #[trigger] s[i].shortname == k
}

/// The entries of `s` as a map from shortname to link.
pub open spec fn table_of(s: Seq<LinkModel>) -> Map<Seq<char>, LinkModel> {
    Map::new(|k: Seq<char>| holds_key(s, k), |k: Seq<char>| s[index_of_key(s, k)])
}

/// The map from each shortname to the URL it expands to.
pub open spec fn longurl_table(m: Map<Seq<char>, LinkModel>) -> Map<Seq<char>, Seq<char>> {
    Map::new(|k: Seq<char>| m.contains_key(k), |k: Seq<char>| m[k].longurl)
}

/// `r` lists a link with the shortname `k`.
pub open spec fn lists_shortname(r: Seq<Link>, k: Seq<char>) -> bool {
    exists|i: int| 0 <= i < r.len() && #[trigger] r[i].shortname@ == k
}

proof fn lemma_index_of_key(s: Seq<LinkModel>, i: int)
    requires
        unique_shortnames(s),
        0 <= i < s.len(),
    ensures
        holds_key(s, s[i].shortname),
        index_of_key(s, s[i].shortname) == i,
        table_of(s).contains_key(s[i].shortname),
        table_of(s)[s[i].shortname] == s[i],
{
    let k = s[i].shortname;
    assert(s[i].shortname == k);
    assert(holds_key(s, k));
    let j = index_of_key(s, k);
    assert(s[j].shortname == k);
}

proof fn lemma_table_update(s: Seq<LinkModel>, i: int, v: LinkModel)
    requires
        unique_shortnames(s),
        0 <= i < s.len(),
        v.shortname == s[i].shortname,
    ensures
        unique_shortnames(s.update(i, v)),
        table_of(s.update(i, v)) == table_of(s).insert(v.shortname, v),
{
    let s2 = s.update(i, v);
    assert forall|a: int, b: int|
        0 <= a < s2.len() && 0 <= b < s2.len() && a != b implies s2[a].shortname
        != s2[b].shortname by {
        assert(s[a].shortname != s[b].shortname);
    }
    let t = table_of(s).insert(v.shortname, v);
    assert forall|k: Seq<char>| #[trigger] table_of(s2).contains_key(k) == t.contains_key(k) by {
        if holds_key(s2, k) {
            let j = index_of_key(s2, k);
            if j != i {
                assert(s[j].shortname == k);
            }
        }
        if holds_key(s, k) {
            let j = index_of_key(s, k);
            assert(s2[j].shortname == k);
        }
        if k == v.shortname {
            assert(s2[i].shortname == k);
        }
    }
    assert forall|k: Seq<char>| #[trigger] table_of(s2).contains_key(k) implies table_of(s2)[k]
        == t[k] by {
        let j = index_of_key(s2, k);
        lemma_index_of_key(s2, j);
        if j != i {
            lemma_index_of_key(s, j);
        }
    }
    assert(table_of(s2) =~= t);
}

proof fn lemma_table_push(s: Seq<LinkModel>, v: LinkModel)
    requires
        unique_shortnames(s),
        !holds_key(s, v.shortname),
    ensures
        unique_shortnames(s.push(v)),
        table_of(s.push(v)) == table_of(s).insert(v.shortname, v),
{
    let s2 = s.push(v);
    let n = s.len() as int;
    assert forall|a: int, b: int|
        0 <= a < s2.len() && 0 <= b < s2.len() && a != b implies s2[a].shortname
        != s2[b].shortname by {
        if a == n {
            assert(s[b].shortname == s2[b].shortname);
        } else if b == n {
            assert(s[a].shortname == s2[a].shortname);
        } else {
            assert(s[a].shortname != s[b].shortname);
        }
    }
    let t = table_of(s).insert(v.shortname, v);
    assert forall|k: Seq<char>| #[trigger] table_of(s2).contains_key(k) == t.contains_key(k) by {
        if holds_key(s2, k) {
            let j = index_of_key(s2, k);
            if j != n {
                assert(s[j].shortname == k);
            }
        }
        if holds_key(s, k) {
            let j = index_of_key(s, k);
            assert(s2[j].shortname == k);
        }
        if k == v.shortname {
            assert(s2[n].shortname == k);
        }
    }
    assert forall|k: Seq<char>| #[trigger] table_of(s2).contains_key(k) implies table_of(s2)[k]
        == t[k] by {
        let j = index_of_key(s2, k);
        lemma_index_of_key(s2, j);
        if j != n {
            lemma_index_of_key(s, j);
        }
    }
    assert(table_of(s2) =~= t);
}

proof fn lemma_table_remove(s: Seq<LinkModel>, i: int)
    requires
        unique_shortnames(s),
        0 <= i < s.len(),
    ensures
        unique_shortnames(s.remove(i)),
        table_of(s.remove(i)) == table_of(s).remove(s[i].shortname),
{
    let s2 = s.remove(i);
    let k0 = s[i].shortname;
    assert forall|a: int, b: int|
        0 <= a < s2.len() && 0 <= b < s2.len() && a != b implies s2[a].shortname
        != s2[b].shortname by {
        let a0 = if a < i { a } else { a + 1 };
        let b0 = if b < i { b } else { b + 1 };
        assert(s[a0].shortname != s[b0].shortname);
    }
    let t = table_of(s).remove(k0);
    assert forall|k: Seq<char>| #[trigger] table_of(s2).contains_key(k) == t.contains_key(k) by {
        if holds_key(s2, k) {
            let j = index_of_key(s2, k);
            let j0 = if j < i { j } else { j + 1 };
            assert(s[j0].shortname == k);
            assert(k != k0);
        }
        if holds_key(s, k) && k != k0 {
            let j = index_of_key(s, k);
            assert(j != i);
            let j2 = if j < i { j } else { j - 1 };
            assert(s2[j2].shortname == k);
        }
    }
    assert forall|k: Seq<char>| #[trigger] table_of(s2).contains_key(k) implies table_of(s2)[k]
        == t[k] by {
        let j = index_of_key(s2, k);
        lemma_index_of_key(s2, j);
        let j0 = if j < i { j } else { j + 1 };
        assert(s[j0] == s2[j]);
        lemma_index_of_key(s, j0);
    }
    assert(table_of(s2) =~= t);
}

/// A store of unique shortnames holds as many links as it has entries.
proof fn lemma_table_finite(s: Seq<LinkModel>)
    requires
        unique_shortnames(s),
    ensures
        table_of(s).dom().finite(),
        table_of(s).dom().len() == s.len(),
    decreases s.len(),
{
    if s.len() == 0 {
        assert(table_of(s).dom() =~= Set::<Seq<char>>::empty());
    } else {
        let p = s.drop_last();
        let v = s.last();
        assert(unique_shortnames(p)) by {
            assert forall|i: int, j: int| 0 <= i < p.len() && 0 <= j < p.len() && i != j implies p[i].shortname
                != p[j].shortname by {
                assert(s[i].shortname != s[j].shortname);
            }
        }
        assert(!holds_key(p, v.shortname)) by {
            if holds_key(p, v.shortname) {
                let j = index_of_key(p, v.shortname);
                assert(s[j].shortname == s[s.len() - 1].shortname);
            }
        }
        assert(s =~= p.push(v));
        lemma_table_finite(p);
        lemma_table_push(p, v);
        assert(!table_of(p).dom().contains(v.shortname));
        assert(table_of(s).dom() =~= table_of(p).dom().insert(v.shortname));
    }
}

/// The links of the service. No two of them share a shortname; seen from
/// outside, the store is the map from each shortname to its link.
pub struct LinkStore {
    entries: Vec<Link>,
}

impl LinkStore {
    /// The stored links, in the order in which the store keeps them.
    closed spec fn models(&self) -> Seq<LinkModel> {
        self.entries@.map_values(|l: Link| l@)
    }

    #[verifier::type_invariant]
    closed spec fn well_formed(&self) -> bool {
        unique_shortnames(self.models())
    }
}

impl View for LinkStore {
    type V = Map<Seq<char>, LinkModel>;

    closed spec fn view(&self) -> Map<Seq<char>, LinkModel> {
        table_of(self.models())
    }
}

/// Every link of a store is filed under its own shortname.
pub proof fn lemma_filed_under_shortname(store: LinkStore)
    ensures
        forall|k: Seq<char>| #[trigger] store@.contains_key(k) ==> store@[k].shortname == k,
{
    let s = store.models();
    assert forall|k: Seq<char>| #[trigger] store@.contains_key(k) implies store@[k].shortname
        == k by {
        let j = index_of_key(s, k);
        assert(s[j].shortname == k);
    }
}

impl LinkStore {
    /// An empty store.
    pub fn new() -> (store: Self)
        ensures
            store@ == Map::<Seq<char>, LinkModel>::empty(),
    {
        let store = LinkStore { entries: Vec::new() };
        proof {
            assert(store.models() =~= Seq::<LinkModel>::empty());
            assert(store@ =~= Map::<Seq<char>, LinkModel>::empty());
        }
        store
    }

    /// How many links the store holds.
    pub fn len(&self) -> (r: usize)
        ensures
            self@.dom().finite(),
            r == self@.len(),
    {
        proof {
            use_type_invariant(self);
            lemma_table_finite(self.models());
        }
        self.entries.len()
    }

    /// The index of the entry with the shortname `key`, if there is one.
    fn position(&self, key: &String) -> (r: Option<usize>)
        ensures
            match r {
                Some(i) => i < self.models().len() && self.models()[i as int].shortname == key@,
                None => !holds_key(self.models(), key@),
            },
    {
        let mut i: usize = 0;
        while i < self.entries.len()
            invariant
                i <= self.entries.len(),
                self.models().len() == self.entries.len(),
                forall|j: int| 0 <= j < self.models().len() ==> #[trigger] self.models()[j] == self.entries@[j]@,
                forall|j: int| 0 <= j < i ==> #[trigger] self.models()[j].shortname != key@,
            decreases self.entries.len() - i,
        {
            if self.entries[i].shortname == *key {
                return Some(i);
            }
            i += 1;
        }
        None
    }

    /// The link filed under `shortname`, if there is one.
    pub fn get(&self, shortname: &str) -> (r: Option<&Link>)
        ensures
            read_link(self@, shortname@) == match r {
                Some(link) => Some(link@),
                None => None,
            },
            match r {
                Some(link) => self@.contains_key(shortname@) && link@ == self@[shortname@],
                None => !self@.contains_key(shortname@),
            },
    {
        proof {
            use_type_invariant(self);
        }
        let key = String::from_str(shortname);
        match self.position(&key) {
            Some(i) => {
                proof {
                    lemma_index_of_key(self.models(), i as int);
                }
                Some(&self.entries[i])
            },
            None => None,
        }
    }

    /// The URL that `shortname` expands to, if it is stored.
    pub fn lookup_longurl(&self, shortname: &str) -> (r: Option<String>)
        ensures
            match r {
                Some(url) => self@.contains_key(shortname@) && url@ == self@[shortname@].longurl,
                None => !self@.contains_key(shortname@),
            },
    {
        match self.get(shortname) {
            Some(link) => Some(link.longurl.clone()),
            None => None,
        }
    }

    /// Files `link` under its shortname, in place of any link filed there before.
    pub fn insert(&mut self, link: Link)
        ensures
            final(self)@ == old(self)@.insert(link.shortname@, link@),
    {
        proof {
            use_type_invariant(&*self);
        }
        let ghost s = self.models();
        let ghost v = link@;
        let pos = self.position(&link.shortname);
        let mut entries: Vec<Link> = Vec::new();
        std::mem::swap(&mut entries, &mut self.entries);
        match pos {
            Some(i) => {
                entries.set(i, link);
                proof {
                    assert(entries@.map_values(|l: Link| l@) =~= s.update(i as int, v));
                    lemma_table_update(s, i as int, v);
                }
            },
            None => {
                entries.push(link);
                proof {
                    assert(entries@.map_values(|l: Link| l@) =~= s.push(v));
                    lemma_table_push(s, v);
                }
            },
        }
        self.entries = entries;
    }

    /// Removes the link filed under `shortname`, if there is one.
    pub fn remove(&mut self, shortname: &str)
        ensures
            final(self)@ == old(self)@.remove(shortname@),
    {
        proof {
            use_type_invariant(&*self);
        }
        let ghost s = self.models();
        let key = String::from_str(shortname);
        match self.position(&key) {
            Some(i) => {
                let mut entries: Vec<Link> = Vec::new();
                std::mem::swap(&mut entries, &mut self.entries);
                let _removed = entries.remove(i);
                proof {
                    assert(entries@.map_values(|l: Link| l@) =~= s.remove(i as int));
                    lemma_table_remove(s, i as int);
                }
                self.entries = entries;
            },
            None => {
                proof {
                    assert(self@ =~= self@.remove(shortname@));
                }
            },
        }
    }

    /// Counts one more visit of the link filed under `shortname`; a store
    /// without such a link is left as it is.
    pub fn record_click(&mut self, shortname: &str)
        requires
            old(self)@.contains_key(shortname@) ==> old(self)@[shortname@].clicks < usize::MAX,
        ensures
            final(self)@ == (if old(self)@.contains_key(shortname@) {
                old(self)@.insert(
                    shortname@,
                    LinkModel { clicks: (old(self)@[shortname@].clicks + 1) as usize, ..old(self)@[shortname@] },
                )
            } else {
                old(self)@
            }),
    {
        proof {
            use_type_invariant(&*self);
        }
        let ghost s = self.models();
        let key = String::from_str(shortname);
        match self.position(&key) {
            Some(i) => {
                proof {
                    lemma_index_of_key(s, i as int);
                }
                let current = &self.entries[i];
                let updated = Link {
                    shortname: current.shortname.clone(),
                    longurl: current.longurl.clone(),
                    created_at: current.created_at,
                    clicks: current.clicks + 1,
                };
                let ghost v = updated@;
                let mut entries: Vec<Link> = Vec::new();
                std::mem::swap(&mut entries, &mut self.entries);
                entries.set(i, updated);
                proof {
                    assert(entries@.map_values(|l: Link| l@) =~= s.update(i as int, v));
                    lemma_table_update(s, i as int, v);
                }
                self.entries = entries;
            },
            None => {},
        }
    }

    /// Every stored link, each once.
    pub fn values(&self) -> (r: Vec<Link>)
        ensures
            lists_stored_links(self@, r@),
            forall|k: Seq<char>| #[trigger] self@.contains_key(k) ==> lists_shortname(r@, k),
    {
        proof {
            use_type_invariant(self);
        }
        let ghost s = self.models();
        let mut r: Vec<Link> = Vec::new();
        let mut i: usize = 0;
        while i < self.entries.len()
            invariant
                i <= self.entries.len(),
                s == self.models(),
                s.len() == self.entries.len(),
                forall|j: int| 0 <= j < s.len() ==> #[trigger] s[j] == self.entries@[j]@,
                r.len() == i,
                forall|j: int| 0 <= j < i ==> #[trigger] r@[j]@ == s[j],
            decreases self.entries.len() - i,
        {
            r.push(self.entries[i].clone());
            i += 1;
        }
        proof {
            assert forall|i: int| 0 <= i < r.len() implies self@.contains_key(
                #[trigger] r[i].shortname@,
            ) && self@[r[i].shortname@] == r[i]@ by {
                assert(r@[i]@ == s[i]);
                lemma_index_of_key(s, i);
            }
            assert forall|i: int, j: int| 0 <= i < j < r.len() implies (#[trigger] r[i]).shortname@
                != (#[trigger] r[j]).shortname@ by {
                assert(r@[i]@ == s[i]);
                assert(r@[j]@ == s[j]);
            }
            assert forall|k: Seq<char>| #[trigger] self@.contains_key(k) implies lists_shortname(
                r@,
                k,
            ) by {
                let j = index_of_key(s, k);
                assert(r@[j]@ == s[j]);
                assert(r@[j].shortname@ == k);
            }
        }
        r
    }
}


/// The order in which links are listed for display.
#[derive(Clone, Copy, Debug, PartialEq, Eq, Structural)]
pub enum RankKey {
    /// The most recently created first.
    CreatedAt,
    /// The most visited first.
    Clicks,
}

/// `a` may be listed before `b` under `key`.
pub open spec fn outranks(key: RankKey, a: LinkModel, b: LinkModel) -> bool {
    match key {
        RankKey::CreatedAt => b.created_at.le(a.created_at),
        RankKey::Clicks => b.clicks <= a.clicks,
    }
}

fn outranks_exec(key: RankKey, a: &Link, b: &Link) -> (r: bool)
    ensures
        r == outranks(key, a@, b@),
{
    match key {
        RankKey::CreatedAt => b.created_at.is_not_after(&a.created_at),
        RankKey::Clicks => b.clicks <= a.clicks,
    }
}

/// Each of `r` is the link filed under its shortname in `links`, and no
/// shortname is listed twice.
pub open spec fn lists_stored_links(links: Map<Seq<char>, LinkModel>, r: Seq<Link>) -> bool {
    &&& forall|i: int|
        0 <= i < r.len() ==> links.contains_key(#[trigger] r[i].shortname@) && links[r[i].shortname@] == r[i]@
    &&& forall|i: int, j: int| 0 <= i < j < r.len() ==> (#[trigger] r[i]).shortname@ != (#[trigger] r[j]).shortname@
}

/// `r` is in the order of `key`: each link ranks at least as high as the next ones.
pub open spec fn in_rank_order(key: RankKey, r: Seq<Link>) -> bool {
    forall|i: int, j: int| 0 <= i < j < r.len() ==> outranks(key, #[trigger] r[i]@, #[trigger] r[j]@)
}

/// `r` lists at most `n` of the links, the highest under `key` first; a link
/// is left out only when `n` links are listed and each of them ranks at least
/// as high as it.
pub open spec fn is_top(links: Map<Seq<char>, LinkModel>, key: RankKey, n: int, r: Seq<Link>) -> bool {
    &&& r.len() <= n
    &&& r.len() == (if n < links.len() { n } else { links.len() as int })
    &&& lists_stored_links(links, r)
    &&& in_rank_order(key, r)
    &&& forall|k: Seq<char>|
        #[trigger] links.contains_key(k) && !lists_shortname(r, k) ==> r.len() == n && forall|i: int|
            0 <= i < r.len() ==> outranks(key, #[trigger] r[i]@, links[k])
}

/// `r` lists every link once, the highest under `key` first.
pub open spec fn is_ranking(links: Map<Seq<char>, LinkModel>, key: RankKey, r: Seq<Link>) -> bool {
    &&& r.len() == links.len()
    &&& lists_stored_links(links, r)
    &&& in_rank_order(key, r)
    &&& forall|k: Seq<char>| #[trigger] links.contains_key(k) ==> lists_shortname(r, k)
}

/// The most visited first: under [`RankKey::Clicks`] a link may come before
/// another exactly when its visit count is at least the other's, compared as
/// whole numbers; a link with strictly more visits always comes first.
pub proof fn law_rank_by_clicks(a: LinkModel, b: LinkModel)
    ensures
        outranks(RankKey::Clicks, a, b) <==> (a.clicks as int) >= (b.clicks as int),
        (a.clicks as int) > (b.clicks as int) ==> !outranks(RankKey::Clicks, b, a),
{
}

/// The newest first: under [`RankKey::CreatedAt`] a link may come before
/// another exactly when the other was not created later, comparing the
/// seconds first and the nanoseconds only within the same second; a link
/// created later always comes first.
pub proof fn law_rank_by_creation(a: LinkModel, b: LinkModel)
    ensures
        outranks(RankKey::CreatedAt, a, b) <==> ((b.created_at.secs as int) < (a.created_at.secs as int) || (
        b.created_at.secs == a.created_at.secs && (b.created_at.nanos as int) <= (a.created_at.nanos as int))),
        (a.created_at.secs as int) > (b.created_at.secs as int) ==> !outranks(RankKey::CreatedAt, b, a),
        a.created_at.secs == b.created_at.secs && (a.created_at.nanos as int) > (b.created_at.nanos as int)
            ==> !outranks(RankKey::CreatedAt, b, a),
{
}

/// In a list in rank order, a link with strictly more visits (or created
/// strictly later) is never listed after one with fewer (or created earlier).
pub proof fn law_rank_order_respects_counts_and_times(key: RankKey, r: Seq<Link>, i: int, j: int)
    requires
        in_rank_order(key, r),
        0 <= i < j < r.len(),
    ensures
        key == RankKey::Clicks ==> (r[j]@.clicks as int) <= (r[i]@.clicks as int),
        key == RankKey::CreatedAt ==> ((r[j]@.created_at.secs as int) < (r[i]@.created_at.secs as int) || (
        r[j]@.created_at.secs == r[i]@.created_at.secs && (r[j]@.created_at.nanos as int) <= (
        r[i]@.created_at.nanos as int))),
{
    assert(outranks(key, r[i]@, r[j]@));
}

impl LinkStore {
    /// The first `m` links of the store in the order of `key`.
    fn rank_prefix(&self, key: RankKey, m: usize) -> (r: Vec<Link>)
        requires
            m <= self.models().len(),
        ensures
            r.len() == m,
            forall|i: int|
                0 <= i < r.len() ==> self@.contains_key(#[trigger] r[i].shortname@) && self@[r[i].shortname@]
                    == r[i]@,
            forall|i: int, j: int|
                0 <= i < j < r.len() ==> (#[trigger] r[i]).shortname@ != (#[trigger] r[j]).shortname@,
            forall|i: int, j: int| 0 <= i < j < r.len() ==> outranks(key, #[trigger] r[i]@, #[trigger] r[j]@),
            forall|k: Seq<char>|
                #[trigger] self@.contains_key(k) && !lists_shortname(r@, k) ==> forall|i: int|
                    0 <= i < r.len() ==> outranks(key, #[trigger] r[i]@, self@[k]),
            m == self.models().len() ==> forall|k: Seq<char>|
                #[trigger] self@.contains_key(k) ==> lists_shortname(r@, k),
    {
        proof {
            use_type_invariant(self);
        }
        let ghost s = self.models();
        let len = self.entries.len();
        assert forall|j: int| 0 <= j < s.len() implies #[trigger] s[j] == self.entries@[j]@ by {}
        let mut idx: Vec<usize> = Vec::new();
        let mut t: usize = 0;
        while t < len
            invariant
                t <= len,
                idx@.len() == t,
                forall|a: int| 0 <= a < t ==> #[trigger] idx@[a] == a,
            decreases len - t,
        {
            idx.push(t);
            t += 1;
        }
        let ghost mut pos: Seq<int> = Seq::new(len as nat, |e: int| e);
        let mut p: usize = 0;
        while p < m
            invariant
                len == s.len(),
                len == self.entries@.len(),
                s == self.models(),
                forall|j: int| 0 <= j < s.len() ==> #[trigger] s[j] == self.entries@[j]@,
                m <= len,
                p <= m,
                idx@.len() == len,
                pos.len() == len,
                forall|a: int| 0 <= a < len ==> (#[trigger] idx@[a] as int) < len && pos[idx@[a] as int] == a,
                forall|e: int| 0 <= e < len ==> 0 <= #[trigger] pos[e] < len && idx@[pos[e]] == e,
                forall|a: int, b: int|
                    0 <= a < b < p ==> outranks(key, s[#[trigger] idx@[a] as int], s[#[trigger] idx@[b] as int]),
                forall|a: int, b: int|
                    0 <= a < p <= b < len ==> outranks(
                        key,
                        s[#[trigger] idx@[a] as int],
                        s[#[trigger] idx@[b] as int],
                    ),
            decreases m - p,
        {
            let mut best: usize = p;
            let mut q: usize = p + 1;
            while q < len
                invariant
                    len == s.len(),
                    len == self.entries@.len(),
                    forall|j: int| 0 <= j < s.len() ==> #[trigger] s[j] == self.entries@[j]@,
                    p < len,
                    p <= best < q <= len,
                    idx@.len() == len,
                    forall|a: int| 0 <= a < len ==> (#[trigger] idx@[a] as int) < len,
                    forall|b: int|
                        p <= b < q ==> outranks(key, s[idx@[best as int] as int], s[#[trigger] idx@[b] as int]),
                decreases len - q,
            {
                if !outranks_exec(key, &self.entries[idx[best]], &self.entries[idx[q]]) {
                    best = q;
                }
                q += 1;
            }
            let ghost old_idx = idx@;
            let ip = idx[p];
            let ib = idx[best];
            idx.set(p, ib);
            idx.set(best, ip);
            proof {
                pos = pos.update(ib as int, p as int).update(ip as int, best as int);
                assert forall|a: int, b: int| 0 <= a < b < p + 1 implies outranks(
                    key,
                    s[#[trigger] idx@[a] as int],
                    s[#[trigger] idx@[b] as int],
                ) by {
                    if b == p {
                        assert(idx@[b] == old_idx[best as int]);
                        assert(idx@[a] == old_idx[a]);
                    }
                }
                assert forall|a: int, b: int| 0 <= a < p + 1 <= b < len implies outranks(
                    key,
                    s[#[trigger] idx@[a] as int],
                    s[#[trigger] idx@[b] as int],
                ) by {
                    let ob = if b == best { p as int } else { b };
                    assert(idx@[b] == old_idx[ob]);
                    if a == p {
                        assert(idx@[a] == old_idx[best as int]);
                    } else {
                        assert(idx@[a] == old_idx[a]);
                    }
                }
            }
            p += 1;
        }
        let mut r: Vec<Link> = Vec::new();
        let mut a: usize = 0;
        while a < m
            invariant
                len == s.len(),
                len == self.entries@.len(),
                forall|j: int| 0 <= j < s.len() ==> #[trigger] s[j] == self.entries@[j]@,
                m <= len,
                a <= m,
                idx@.len() == len,
                forall|c: int| 0 <= c < len ==> (#[trigger] idx@[c] as int) < len,
                r.len() == a,
                forall|c: int| 0 <= c < a ==> #[trigger] r@[c]@ == s[idx@[c] as int],
            decreases m - a,
        {
            r.push(self.entries[idx[a]].clone());
            a += 1;
        }
        proof {
            assert forall|i: int| 0 <= i < r.len() implies self@.contains_key(
                #[trigger] r[i].shortname@,
            ) && self@[r[i].shortname@] == r[i]@ by {
                assert(r@[i]@ == s[idx@[i] as int]);
                lemma_index_of_key(s, idx@[i] as int);
            }
            assert forall|i: int, j: int| 0 <= i < j < r.len() implies (#[trigger] r[i]).shortname@
                != (#[trigger] r[j]).shortname@ by {
                assert(r@[i]@ == s[idx@[i] as int]);
                assert(r@[j]@ == s[idx@[j] as int]);
                assert(pos[idx@[i] as int] == i);
                assert(pos[idx@[j] as int] == j);
            }
            assert forall|i: int, j: int| 0 <= i < j < r.len() implies outranks(
                key,
                #[trigger] r[i]@,
                #[trigger] r[j]@,
            ) by {
                assert(r@[i]@ == s[idx@[i] as int]);
                assert(r@[j]@ == s[idx@[j] as int]);
            }
            assert forall|k: Seq<char>|
                #[trigger] self@.contains_key(k) && !lists_shortname(r@, k) implies forall|i: int|
                0 <= i < r.len() ==> outranks(key, #[trigger] r[i]@, self@[k]) by {
                let e = index_of_key(s, k);
                lemma_index_of_key(s, e);
                let b = pos[e];
                assert(idx@[b] == e);
                if b < m {
                    assert(r@[b]@ == s[e]);
                    assert(r@[b].shortname@ == k);
                    assert(false);
                }
                assert forall|i: int| 0 <= i < r.len() implies outranks(key, #[trigger] r[i]@, self@[k]) by {
                    assert(r@[i]@ == s[idx@[i] as int]);
                    assert(outranks(key, s[idx@[i] as int], s[idx@[b] as int]));
                }
            }
            if m == len {
                assert forall|k: Seq<char>| #[trigger] self@.contains_key(k) implies lists_shortname(
                    r@,
                    k,
                ) by {
                    let e = index_of_key(s, k);
                    lemma_index_of_key(s, e);
                    let b = pos[e];
                    assert(r@[b]@ == s[e]);
                    assert(r@[b].shortname@ == k);
                }
            }
        }
        r
    }

    /// The `n` highest links under `key`, or all of them when the store holds
    /// fewer, the highest first (see [`is_top`]).
    pub fn top(&self, key: RankKey, n: usize) -> (r: Vec<Link>)
        ensures
            self@.dom().finite(),
            is_top(self@, key, n as int, r@),
    {
        proof {
            use_type_invariant(self);
            lemma_table_finite(self.models());
        }
        let len = self.entries.len();
        let m = if n < len { n } else { len };
        self.rank_prefix(key, m)
    }

    /// Every link of the store, each once, the highest under `key` first
    /// (see [`is_ranking`]).
    pub fn ranked(&self, key: RankKey) -> (r: Vec<Link>)
        ensures
            self@.dom().finite(),
            is_ranking(self@, key, r@),
    {
        proof {
            use_type_invariant(self);
            lemma_table_finite(self.models());
        }
        let len = self.entries.len();
        self.rank_prefix(key, len)
    }
}


/// The map `m` after filing each of `items` in turn under its shortname.
pub open spec fn inserted_all(m: Map<Seq<char>, LinkModel>, items: Seq<LinkModel>) -> Map<Seq<char>, LinkModel>
    decreases items.len(),
{
    if items.len() == 0 {
        m
    } else {
        inserted_all(m, items.drop_last()).insert(items.last().shortname, items.last())
    }
}

/// The last index of `items` whose link has the shortname `k`, or -1 when
/// none has it.
pub open spec fn last_index_of(items: Seq<LinkModel>, k: Seq<char>) -> int
    decreases items.len(),
{
    if items.len() == 0 {
        -1
    } else if items.last().shortname == k {
        items.len() - 1
    } else {
        last_index_of(items.drop_last(), k)
    }
}

/// Filing links one after another: a shortname that some of `items` carry
/// ends up with the last of them, and every other shortname keeps what it had.
pub proof fn law_last_filed_wins(m: Map<Seq<char>, LinkModel>, items: Seq<LinkModel>, k: Seq<char>)
    ensures
        last_index_of(items, k) < items.len(),
        (last_index_of(items, k) >= 0) == (exists|i: int| 0 <= i < items.len() && #[trigger] items[i].shortname == k),
        last_index_of(items, k) >= 0 ==> {
            &&& items[last_index_of(items, k)].shortname == k
            &&& forall|j: int| last_index_of(items, k) < j < items.len() ==> #[trigger] items[j].shortname != k
            &&& inserted_all(m, items).contains_key(k)
            &&& inserted_all(m, items)[k] == items[last_index_of(items, k)]
        },
        last_index_of(items, k) < 0 ==> {
            &&& inserted_all(m, items).contains_key(k) == m.contains_key(k)
            &&& m.contains_key(k) ==> inserted_all(m, items)[k] == m[k]
        },
    decreases items.len(),
{
    if items.len() > 0 {
        let n = items.len() - 1;
        let front = items.drop_last();
        law_last_filed_wins(m, front, k);
        if items[n].shortname == k {
            assert(items[n].shortname == k);
        } else {
            assert forall|i: int| 0 <= i < n implies #[trigger] front[i] == items[i] by {}
            if exists|i: int| 0 <= i < items.len() && #[trigger] items[i].shortname == k {
                let w = choose|i: int| 0 <= i < items.len() && #[trigger] items[i].shortname == k;
                assert(front[w].shortname == k);
            }
            if last_index_of(front, k) >= 0 {
                assert(items[last_index_of(front, k)] == front[last_index_of(front, k)]);
                assert forall|j: int| last_index_of(items, k) < j < items.len() implies #[trigger] items[j].shortname != k by {
                    if j < n {
                        assert(front[j] == items[j]);
                    }
                }
            }
        }
    }
}

impl LinkStore {
    /// Files each of `items` in turn, as [`LinkStore::insert`] does.
    pub fn insert_all(&mut self, items: &Vec<Link>)
        ensures
            final(self)@ == inserted_all(old(self)@, items@.map_values(|l: Link| l@)),
    {
        let ghost start = self@;
        let ghost all = items@.map_values(|l: Link| l@);
        let mut i: usize = 0;
        while i < items.len()
            invariant
                i <= items.len(),
                all == items@.map_values(|l: Link| l@),
                self@ == inserted_all(start, all.take(i as int)),
            decreases items.len() - i,
        {
            let link = items[i].clone();
            self.insert(link);
            proof {
                assert(all.take(i + 1).drop_last() =~= all.take(i as int));
                assert(all.take(i + 1).last() == items@[i as int]@);
            }
            i += 1;
        }
        proof {
            assert(all.take(items.len() as int) =~= all);
        }
    }
}


/// What reading `shortname` gives: the link filed under it, if any.
pub open spec fn read_link(links: Map<Seq<char>, LinkModel>, shortname: Seq<char>) -> Option<LinkModel> {
    if links.contains_key(shortname) {
        Some(links[shortname])
    } else {
        None
    }
}

/// What a read gives back after a write: reading a shortname after
/// [`LinkStore::insert`] filed a link under it gives that link, and every
/// other shortname reads as before.
pub proof fn law_read_after_insert(links: Map<Seq<char>, LinkModel>, link: LinkModel, other: Seq<char>)
    ensures
        read_link(links.insert(link.shortname, link), link.shortname) == Some(link),
        other != link.shortname ==> read_link(links.insert(link.shortname, link), other) == read_link(
            links,
            other,
        ),
{
}

/// After [`LinkStore::remove`] the shortname reads as absent, and every
/// other shortname reads as before.
pub proof fn law_read_after_remove(links: Map<Seq<char>, LinkModel>, shortname: Seq<char>, other: Seq<char>)
    ensures
        read_link(links.remove(shortname), shortname) == None::<LinkModel>,
        other != shortname ==> read_link(links.remove(shortname), other) == read_link(links, other),
{
}

} // verus!
