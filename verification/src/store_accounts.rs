use vstd::prelude::*;

verus! {

/// One account's credentials: the short-lived access token that authorizes
/// protocol operations and the long-lived refresh token used to obtain new
/// access tokens. The refresh token must never be discarded just because an
/// access token stopped working.
#[derive(Debug, Clone)]
pub struct StoredAccountData {
    pub access_token: String,
    pub refresh_token: String,
}

/// Mathematical image of a credential pair.
pub struct CredView {
    pub access_token: Seq<char>,
    pub refresh_token: Seq<char>,
}

impl View for StoredAccountData {
    type V = CredView;

    open spec fn view(&self) -> CredView {
        CredView { access_token: self.access_token@, refresh_token: self.refresh_token@ }
    }
}

impl StoredAccountData {
    pub fn new(access_token: String, refresh_token: String) -> (r: Self)
        ensures
            r@.access_token == access_token@,
            r@.refresh_token == refresh_token@,
    {
        Self { access_token, refresh_token }
    }

    /// A copy whose fields are provably equal to the original's.
    pub fn duplicate(&self) -> (r: Self)
        ensures
            r@ == self@,
    {
        StoredAccountData {
            access_token: self.access_token.clone(),
            refresh_token: self.refresh_token.clone(),
        }
    }
}

/// The credential mapping described by a list of entries: later entries win,
/// exactly as repeated insertion into a map would behave.
pub open spec fn entries_map(s: Seq<(String, StoredAccountData)>) -> Map<Seq<char>, CredView>
    decreases s.len(),
{
    if s.len() == 0 {
        Map::empty()
    } else {
        entries_map(s.drop_last()).insert(s.last().0@, s.last().1@)
    }
}

/// Some entry of `s` carries the account identifier `k`.
pub open spec fn has_key(s: Seq<(String, StoredAccountData)>, k: Seq<char>) -> bool {
    exists|i: int| 0 <= i < s.len() && (#[trigger] s[i]).0@ == k
}

/// No two entries carry the same account identifier.
pub open spec fn keys_distinct(s: Seq<(String, StoredAccountData)>) -> bool {
    forall|i: int, j: int| 0 <= i < j < s.len() ==> (#[trigger] s[i]).0@ != (#[trigger] s[j]).0@
}

/// The in-memory set of stored accounts: account identifier -> credential
/// pair. Keys are unique; the order of entries carries no meaning. Reading
/// and writing the on-disk document is the caller's business: `map` hands out
/// the entries to persist, `from_entries` rebuilds the set from entries read
/// back in.
#[derive(Debug, Clone)]
pub struct StoredAccounts {
    entries: Vec<(String, StoredAccountData)>,
}

impl View for StoredAccounts {
    type V = Map<Seq<char>, CredView>;

    closed spec fn view(&self) -> Map<Seq<char>, CredView> {
        entries_map(self.entries@)
    }
}

pub proof fn lemma_entries_map_dom(s: Seq<(String, StoredAccountData)>)
    ensures
        forall|k: Seq<char>| #[trigger] entries_map(s).dom().contains(k) <==> has_key(s, k),
    decreases s.len(),
{
    if s.len() == 0 {
    } else {
        let t = s.drop_last();
        lemma_entries_map_dom(t);
        assert(entries_map(s) == entries_map(t).insert(s.last().0@, s.last().1@));
        assert forall|k: Seq<char>| #[trigger] entries_map(s).dom().contains(k) <==> has_key(
            s,
            k,
        ) by {
            if entries_map(s).dom().contains(k) {
                if k == s.last().0@ {
                    assert((#[trigger] s[s.len() - 1]).0@ == k);
                    assert(has_key(s, k));
                } else {
                    assert(entries_map(t).dom().contains(k));
                    assert(has_key(t, k));
                    let i = choose|i: int| 0 <= i < t.len() && (#[trigger] t[i]).0@ == k;
                    assert(t[i] == s[i]);
                    assert((#[trigger] s[i]).0@ == k);
                    assert(has_key(s, k));
                }
            }
            if has_key(s, k) {
                let i = choose|i: int| 0 <= i < s.len() && (#[trigger] s[i]).0@ == k;
                if i == s.len() - 1 {
                    assert(entries_map(s).dom().contains(k));
                } else {
                    assert(t[i] == s[i]);
                    assert((#[trigger] t[i]).0@ == k);
                    assert(has_key(t, k));
                    assert(entries_map(t).dom().contains(k));
                    assert(entries_map(s).dom().contains(k));
                }
            }
        }
    }
}

pub proof fn lemma_entries_map_value(s: Seq<(String, StoredAccountData)>, i: int)
    requires
        keys_distinct(s),
        0 <= i < s.len(),
    ensures
        entries_map(s).dom().contains(s[i].0@),
        entries_map(s)[s[i].0@] == s[i].1@,
    decreases s.len(),
{
    if i == s.len() - 1 {
    } else {
        assert(keys_distinct(s.drop_last())) by {
            assert forall|p: int, q: int| 0 <= p < q < s.drop_last().len() implies (
            #[trigger] s.drop_last()[p]).0@ != (#[trigger] s.drop_last()[q]).0@ by {
                assert(s[p].0@ != s[q].0@);
            }
        }
        assert(s.drop_last()[i] == s[i]);
        lemma_entries_map_value(s.drop_last(), i);
        assert(s[i].0@ != s.last().0@);
    }
}

proof fn lemma_entries_map_push(s: Seq<(String, StoredAccountData)>, p: (String, StoredAccountData))
    ensures
        entries_map(s.push(p)) == entries_map(s).insert(p.0@, p.1@),
{
    assert(s.push(p).drop_last() =~= s);
    assert(s.push(p).last() == p);
}

proof fn lemma_distinct_push(s: Seq<(String, StoredAccountData)>, p: (String, StoredAccountData))
    requires
        keys_distinct(s),
        !has_key(s, p.0@),
    ensures
        keys_distinct(s.push(p)),
{
    assert forall|a: int, b: int| 0 <= a < b < s.push(p).len() implies (#[trigger] s.push(
        p,
    )[a]).0@ != (#[trigger] s.push(p)[b]).0@ by {
        if b == s.len() {
            assert(s.push(p)[a] == s[a]);
            assert(!(0 <= a < s.len() && (#[trigger] s[a]).0@ == p.0@));
        } else {
            assert(s.push(p)[a] == s[a] && s.push(p)[b] == s[b]);
            assert((#[trigger] s[a]).0@ != (#[trigger] s[b]).0@);
        }
    }
}

proof fn lemma_entries_map_remove(s: Seq<(String, StoredAccountData)>, i: int)
    requires
        keys_distinct(s),
        0 <= i < s.len(),
    ensures
        keys_distinct(s.remove(i)),
        !has_key(s.remove(i), s[i].0@),
        entries_map(s.remove(i)) =~= entries_map(s).remove(s[i].0@),
    decreases s.len(),
{
    let t = s.remove(i);
    assert forall|p: int, q: int| 0 <= p < q < t.len() implies (#[trigger] t[p]).0@ != (
    #[trigger] t[q]).0@ by {
        let p0 = if p < i {
            p
        } else {
            p + 1
        };
        let q0 = if q < i {
            q
        } else {
            q + 1
        };
        assert(t[p] == s[p0] && t[q] == s[q0]);
        assert(s[p0].0@ != s[q0].0@);
    }
    assert forall|j: int| 0 <= j < t.len() implies (#[trigger] t[j]).0@ != s[i].0@ by {
        let j0 = if j < i {
            j
        } else {
            j + 1
        };
        assert(t[j] == s[j0] && j0 != i);
        if j0 < i {
            assert(s[j0].0@ != s[i].0@);
        } else {
            assert(s[i].0@ != s[j0].0@);
        }
    }
    if i == s.len() - 1 {
        assert(t =~= s.drop_last());
        lemma_entries_map_dom(s.drop_last());
        assert(!has_key(s.drop_last(), s[i].0@)) by {
            if has_key(s.drop_last(), s[i].0@) {
                let j = choose|j: int|
                    0 <= j < s.drop_last().len() && (#[trigger] s.drop_last()[j]).0@ == s[i].0@;
                assert(s[j].0@ == s[i].0@ && j < i);
            }
        }
        assert(entries_map(s) == entries_map(s.drop_last()).insert(s.last().0@, s.last().1@));
        assert(entries_map(s).remove(s[i].0@) =~= entries_map(s.drop_last())) by {
            assert(!entries_map(s.drop_last()).dom().contains(s[i].0@));
        }
    } else {
        assert(keys_distinct(s.drop_last())) by {
            assert forall|p: int, q: int| 0 <= p < q < s.drop_last().len() implies (
            #[trigger] s.drop_last()[p]).0@ != (#[trigger] s.drop_last()[q]).0@ by {
                assert(s[p].0@ != s[q].0@);
            }
        }
        lemma_entries_map_remove(s.drop_last(), i);
        assert(t.drop_last() =~= s.drop_last().remove(i));
        assert(t.last() == s.last());
        assert(entries_map(t) == entries_map(s.drop_last().remove(i)).insert(
            s.last().0@,
            s.last().1@,
        ));
        assert(s[i].0@ != s.last().0@);
        assert(entries_map(t) =~= entries_map(s).remove(s[i].0@));
    }
}

/// The mapping described by a list of entries depends only on the character
/// content of the entries, not on which `String` values carry it.
pub proof fn lemma_entries_map_congruence(
    s: Seq<(String, StoredAccountData)>,
    t: Seq<(String, StoredAccountData)>,
)
    requires
        s.len() == t.len(),
        forall|i: int|
            0 <= i < s.len() ==> (#[trigger] s[i]).0@ == t[i].0@ && s[i].1@ == t[i].1@,
    ensures
        entries_map(s) == entries_map(t),
    decreases s.len(),
{
    if s.len() == 0 {
    } else {
        lemma_entries_map_congruence(s.drop_last(), t.drop_last());
        assert(s.last().0@ == t.last().0@ && s.last().1@ == t.last().1@) by {
            assert(s[s.len() - 1].0@ == t[s.len() - 1].0@ && s[s.len() - 1].1@ == t[s.len()
                - 1].1@);
        }
    }
}

impl StoredAccounts {
    /// The entries as a mathematical sequence.
    pub closed spec fn entries_seq(&self) -> Seq<(String, StoredAccountData)> {
        self.entries@
    }

    /// Well-formed: account identifiers are pairwise distinct.
    pub open spec fn wf(&self) -> bool {
        keys_distinct(self.entries_seq())
    }

    /// The view of a store is exactly the mapping described by its entries.
    pub proof fn lemma_view_is_entries_map(&self)
        ensures
            self@ == entries_map(self.entries_seq()),
    {
    }

    /// A fresh, empty store.
    pub fn new() -> (r: Self)
        ensures
            r.wf(),
            r@ == Map::<Seq<char>, CredView>::empty(),
            r.entries_seq().len() == 0,
    {
        StoredAccounts { entries: Vec::new() }
    }

    /// The stored entries, for iteration and for writing out.
    pub fn map(&self) -> (r: &Vec<(String, StoredAccountData)>)
        ensures
            r@ == self.entries_seq(),
    {
        &self.entries
    }

    /// How many accounts are stored.
    pub fn len(&self) -> (n: usize)
        ensures
            n == self.entries_seq().len(),
    {
        self.entries.len()
    }

    /// Inserts or replaces the credentials for account `k`.
    pub fn insert(&mut self, k: String, v: StoredAccountData)
        requires
            old(self).wf(),
        ensures
            final(self).wf(),
            final(self)@ == old(self)@.insert(k@, v@),
    {
        let ghost s0 = self.entries@;
        let mut i: usize = 0;
        while i < self.entries.len()
            invariant
                self.entries@ == s0,
                keys_distinct(s0),
                0 <= i <= s0.len(),
                forall|j: int| 0 <= j < i ==> (#[trigger] s0[j]).0@ != k@,
            decreases s0.len() - i,
        {
            if self.entries[i].0 == k {
                proof {
                    lemma_entries_map_remove(s0, i as int);
                    lemma_entries_map_push(s0.remove(i as int), (k, v));
                    lemma_distinct_push(s0.remove(i as int), (k, v));
                }
                let _ = self.entries.remove(i);
                self.entries.push((k, v));
                proof {
                    assert(entries_map(s0).remove(k@).insert(k@, v@) =~= entries_map(s0).insert(
                        k@,
                        v@,
                    ));
                    assert(self@ == old(self)@.insert(k@, v@));
                }
                return ;
            }
            i += 1;
        }
        proof {
            assert(!has_key(s0, k@)) by {
                if has_key(s0, k@) {
                    let j = choose|j: int| 0 <= j < s0.len() && (#[trigger] s0[j]).0@ == k@;
                    assert((#[trigger] s0[j]).0@ != k@);
                }
            }
            lemma_entries_map_push(s0, (k, v));
            lemma_distinct_push(s0, (k, v));
        }
        self.entries.push((k, v));
        proof {
            assert(self.entries@ == s0.push((k, v)));
            assert(self@ == old(self)@.insert(k@, v@));
        }
    }

    /// Looks up the credentials stored for account `k`.
    pub fn get(&self, k: &String) -> (r: Option<&StoredAccountData>)
        requires
            self.wf(),
        ensures
            match r {
                Some(v) => self@.dom().contains(k@) && v@ == self@[k@],
                None => !self@.dom().contains(k@),
            },
    {
        let mut i: usize = 0;
        while i < self.entries.len()
            invariant
                self.wf(),
                0 <= i <= self.entries_seq().len(),
                forall|j: int| 0 <= j < i ==> (#[trigger] self.entries_seq()[j]).0@ != k@,
            decreases self.entries_seq().len() - i,
        {
            if self.entries[i].0 == *k {
                proof {
                    lemma_entries_map_value(self.entries@, i as int);
                }
                return Some(&self.entries[i].1);
            }
            i += 1;
        }
        proof {
            lemma_entries_map_dom(self.entries@);
        }
        None
    }

    /// A copy of the entries, suitable for handing to the persistence layer.
    pub fn snapshot(&self) -> (r: Vec<(String, StoredAccountData)>)
        ensures
            r@.len() == self.entries_seq().len(),
            forall|i: int|
                0 <= i < r@.len() ==> (#[trigger] r@[i]).0@ == self.entries_seq()[i].0@
                    && r@[i].1@ == self.entries_seq()[i].1@,
    {
        let mut r: Vec<(String, StoredAccountData)> = Vec::new();
        let mut i: usize = 0;
        while i < self.entries.len()
            invariant
                0 <= i <= self.entries_seq().len(),
                r@.len() == i,
                forall|j: int|
                    0 <= j < i ==> (#[trigger] r@[j]).0@ == self.entries_seq()[j].0@
                        && r@[j].1@ == self.entries_seq()[j].1@,
            decreases self.entries_seq().len() - i,
        {
            r.push((self.entries[i].0.clone(), self.entries[i].1.duplicate()));
            i += 1;
        }
        r
    }

    /// Rebuilds a store from entries read back in; a repeated account
    /// identifier keeps the later entry, as repeated insertion would.
    pub fn from_entries(v: Vec<(String, StoredAccountData)>) -> (r: Self)
        ensures
            r.wf(),
            r@ == entries_map(v@),
    {
        let mut r = StoredAccounts::new();
        let mut i: usize = 0;
        while i < v.len()
            invariant
                0 <= i <= v@.len(),
                r.wf(),
                r@ == entries_map(v@.take(i as int)),
            decreases v@.len() - i,
        {
            proof {
                assert(v@.take(i + 1).drop_last() =~= v@.take(i as int));
                assert(v@.take(i + 1).last() == v@[i as int]);
            }
            r.insert(v[i].0.clone(), v[i].1.duplicate());
            i += 1;
        }
        proof {
            assert(v@.take(v@.len() as int) =~= v@);
        }
        r
    }

    /// The single stored account, if exactly one account is stored; `None`
    /// when the store is empty or holds several accounts, in which case the
    /// caller must choose interactively.
    pub fn sole_entry(&self) -> (r: Option<(String, StoredAccountData)>)
        requires
            self.wf(),
        ensures
            match r {
                Some(p) => self.entries_seq().len() == 1 && p.0@ == self.entries_seq()[0].0@
                    && p.1@ == self.entries_seq()[0].1@ && self@ == Map::<
                    Seq<char>,
                    CredView,
                >::empty().insert(p.0@, p.1@),
                None => self.entries_seq().len() != 1,
            },
    {
        if self.entries.len() == 1 {
            proof {
                let s = self.entries@;
                assert(s.drop_last() =~= Seq::<(String, StoredAccountData)>::empty());
                assert(entries_map(s.drop_last()) == Map::<Seq<char>, CredView>::empty());
                assert(s.last() == s[0]);
                assert(self@ == Map::<Seq<char>, CredView>::empty().insert(s[0].0@, s[0].1@));
            }
            Some((self.entries[0].0.clone(), self.entries[0].1.duplicate()))
        } else {
            None
        }
    }
}

/// Law: persisting a store as its entry list and loading that list back
/// yields the same account -> credential mapping, even though the load
/// allocates fresh strings. Together with the contract of `from_entries`,
/// this is the store/load round trip.
pub proof fn lemma_persist_load_roundtrip(
    s: StoredAccounts,
    persisted: Seq<(String, StoredAccountData)>,
)
    requires
        persisted.len() == s.entries_seq().len(),
        forall|i: int|
            0 <= i < persisted.len() ==> (#[trigger] persisted[i]).0@ == s.entries_seq()[i].0@
                && persisted[i].1@ == s.entries_seq()[i].1@,
    ensures
        entries_map(persisted) == s@,
{
    lemma_entries_map_congruence(persisted, s.entries_seq());
    s.lemma_view_is_entries_map();
}

} // verus!
