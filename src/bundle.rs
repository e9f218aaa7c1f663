//! A key bundle: the key shares of one party, keyed by account id.
use vstd::prelude::*;

verus! {

/// A mapping from account id to key share, with at most one share per account.
pub struct KeyBundle<S> {
    ids: Vec<String>,
    shares: Vec<S>,
}

impl<S> KeyBundle<S> {
    pub closed spec fn account_ids(&self) -> Seq<Seq<char>> {
        self.ids@.map_values(|s: String| s@)
    }

    pub closed spec fn wf(&self) -> bool {
        &&& self.ids.len() == self.shares.len()
        &&& self.account_ids().no_duplicates()
    }

    /// The bundle as a map from account id to share.
    pub closed spec fn view(&self) -> Map<Seq<char>, S> {
        Map::new(
            |k: Seq<char>| self.account_ids().contains(k),
            |k: Seq<char>| self.shares@[self.account_ids().index_of(k)],
        )
    }

    proof fn lemma_entry(&self, i: int)
        requires
            self.wf(),
            0 <= i < self.ids.len(),
        ensures
            self.view().contains_key(self.account_ids()[i]),
            self.view()[self.account_ids()[i]] == self.shares@[i],
    {
        let k = self.account_ids()[i];
        assert(self.account_ids().contains(k));
        let j = self.account_ids().index_of(k);
        assert(self.account_ids()[j] == k);
    }

    pub fn new() -> (b: KeyBundle<S>)
        ensures
            b.wf(),
            b.view() == Map::<Seq<char>, S>::empty(),
    {
        let b = KeyBundle { ids: Vec::new(), shares: Vec::new() };
        assert(b.account_ids() =~= Seq::<Seq<char>>::empty());
        assert(b.view() =~= Map::<Seq<char>, S>::empty());
        b
    }

    fn position(&self, key: &String) -> (r: Option<usize>)
        requires
            self.wf(),
        ensures
            r matches Some(i) ==> i < self.ids.len() && self.account_ids()[i as int] == key@,
            r is None ==> !self.view().contains_key(key@),
    {
        let mut i: usize = 0;
        while i < self.ids.len()
            invariant
                self.wf(),
                i <= self.ids.len(),
                forall|j: int| 0 <= j < i ==> self.account_ids()[j] != key@,
            decreases self.ids.len() - i,
        {
            if self.ids[i] == *key {
                return Some(i);
            }
            i = i + 1;
        }
        None
    }

    /// Adds the share of `account_id`, replacing the one it had.
    pub fn insert(&mut self, account_id: String, share: S)
        requires
            old(self).wf(),
        ensures
            final(self).wf(),
            final(self).view() == old(self).view().insert(account_id@, share),
    {
        let ghost old_ids = self.account_ids();
        let ghost k = account_id@;
        match self.position(&account_id) {
            Some(i) => {
                let ghost old_shares = self.shares@;
                self.shares.remove(i);
                self.shares.insert(i, share);
                assert(self.shares@ =~= old_shares.update(i as int, share));
                proof {
                    self.lemma_entry(i as int);
                    assert forall|q: Seq<char>| #[trigger] self.view().contains_key(q) implies self.view()[q]
                        == old(self).view().insert(k, share)[q] by {
                        if q != k {
                            let j = old_ids.index_of(q);
                            assert(old_ids[j] == q);
                            self.lemma_entry(j);
                            old(self).lemma_entry(j);
                        }
                    }
                }
                assert(self.view() =~= old(self).view().insert(k, share));
            },
            None => {
                let n = self.ids.len();
                self.ids.push(account_id);
                self.shares.push(share);
                assert(self.account_ids() =~= old_ids.push(k));
                proof {
                    self.lemma_entry(n as int);
                    assert forall|q: Seq<char>| #[trigger] self.view().contains_key(q) implies self.view()[q]
                        == old(self).view().insert(k, share)[q] by {
                        if q != k {
                            let j = self.account_ids().index_of(q);
                            assert(self.account_ids()[j] == q);
                            assert(j < n);
                            assert(old_ids[j] == q);
                            self.lemma_entry(j);
                            old(self).lemma_entry(j);
                        }
                    }
                    assert forall|q: Seq<char>| #[trigger] old(self).view().insert(k, share).contains_key(q)
                        implies self.view().contains_key(q) by {
                        if q != k {
                            let j = old_ids.index_of(q);
                            assert(old_ids[j] == q);
                            assert(self.account_ids()[j] == q);
                        }
                    }
                }
                assert(self.view() =~= old(self).view().insert(k, share));
            },
        }
    }

    /// The share of `account_id`: an exact, case-sensitive match.
    pub fn get(&self, account_id: &str) -> (r: Option<&S>)
        requires
            self.wf(),
        ensures
            match r {
                Some(s) => self.view().contains_key(account_id@) && *s == self.view()[account_id@],
                None => !self.view().contains_key(account_id@),
            },
    {
        let key = account_id.to_owned();
        match self.position(&key) {
            Some(i) => {
                proof {
                    self.lemma_entry(i as int);
                }
                Some(&self.shares[i])
            },
            None => None,
        }
    }

    pub fn contains(&self, account_id: &str) -> (r: bool)
        requires
            self.wf(),
        ensures
            r == self.view().contains_key(account_id@),
    {
        self.get(account_id).is_some()
    }

    /// The number of accounts.
    pub fn len(&self) -> (n: usize)
        requires
            self.wf(),
        ensures
            n == self.view().len(),
    {
        proof {
            self.account_ids().unique_seq_to_set();
            assert(self.view().dom() =~= self.account_ids().to_set());
        }
        self.ids.len()
    }

    pub fn is_empty(&self) -> (r: bool)
        requires
            self.wf(),
        ensures
            r == (self.view().len() == 0),
    {
        self.len() == 0
    }

    /// The account ids, in the order they were first added.
    pub fn account_id_list(&self) -> (r: Vec<String>)
        requires
            self.wf(),
        ensures
            r@.map_values(|s: String| s@).to_set() == self.view().dom(),
            r@.map_values(|s: String| s@).no_duplicates(),
    {
        let mut out: Vec<String> = Vec::new();
        let mut i: usize = 0;
        while i < self.ids.len()
            invariant
                i <= self.ids.len(),
                out@.len() == i,
                forall|j: int| 0 <= j < i ==> (#[trigger] out@[j])@ == self.ids@[j]@,
            decreases self.ids.len() - i,
        {
            out.push(self.ids[i].clone());
            i = i + 1;
        }
        assert(out@.map_values(|s: String| s@) =~= self.account_ids());
        assert(self.view().dom() =~= self.account_ids().to_set());
        out
    }
}

/// The bundle that adding the entries in order builds: a later entry for an
/// account replaces an earlier one.
pub open spec fn entries_map<S>(ids: Seq<Seq<char>>, shares: Seq<S>) -> Map<Seq<char>, S>
    decreases ids.len(),
{
    if ids.len() == 0 || shares.len() == 0 {
        Map::empty()
    } else {
        entries_map(ids.drop_last(), shares.drop_last()).insert(ids.last(), shares.last())
    }
}

proof fn lemma_entries_map_distinct<S>(ids: Seq<Seq<char>>, shares: Seq<S>)
    requires
        ids.len() == shares.len(),
        ids.no_duplicates(),
    ensures
        forall|k: Seq<char>| #[trigger] entries_map(ids, shares).contains_key(k) <==> ids.contains(k),
        forall|i: int| 0 <= i < ids.len() ==> entries_map(ids, shares)[#[trigger] ids[i]] == shares[i],
    decreases ids.len(),
{
    if ids.len() > 0 {
        let (pi, ps) = (ids.drop_last(), shares.drop_last());
        assert(pi.no_duplicates());
        lemma_entries_map_distinct(pi, ps);
        let m = entries_map(ids, shares);
        assert(m == entries_map(pi, ps).insert(ids.last(), shares.last()));
        assert forall|k: Seq<char>| #[trigger] m.contains_key(k) <==> ids.contains(k) by {
            if ids.contains(k) && k != ids.last() {
                let j = choose|j: int| 0 <= j < ids.len() && ids[j] == k;
                assert(j != ids.len() - 1);
                assert(pi[j] == k);
                assert(pi.contains(k));
            }
            if k == ids.last() {
                assert(ids[ids.len() - 1] == k);
            }
            if pi.contains(k) {
                let j = choose|j: int| 0 <= j < pi.len() && pi[j] == k;
                assert(ids[j] == k);
            }
        }
        assert forall|i: int| 0 <= i < ids.len() implies m[#[trigger] ids[i]] == shares[i] by {
            if i < ids.len() - 1 {
                assert(pi[i] == ids[i]);
                assert(ids[i] != ids.last());
            }
        }
    }
}

impl<S> KeyBundle<S> {
    /// The account ids of the entries, in order.
    pub closed spec fn entry_ids(&self) -> Seq<Seq<char>> {
        self.account_ids()
    }

    /// The shares of the entries, in the same order.
    pub closed spec fn entry_shares(&self) -> Seq<S> {
        self.shares@
    }

    /// The entries of the bundle, one per account: the ids and the shares, in the
    /// same order.
    pub fn into_entries(self) -> (r: (Vec<String>, Vec<S>))
        requires
            self.wf(),
        ensures
            r.0@.map_values(|s: String| s@) == self.entry_ids(),
            r.1@ == self.entry_shares(),
            r.0@.len() == r.1@.len(),
            self.entry_ids().no_duplicates(),
    {
        (self.ids, self.shares)
    }

    /// The bundle that adding the entries in order builds.
    pub fn from_entries(ids: Vec<String>, shares: Vec<S>) -> (b: KeyBundle<S>)
        requires
            ids@.len() == shares@.len(),
        ensures
            b.wf(),
            b.view() == entries_map(ids@.map_values(|s: String| s@), shares@),
    {
        let ghost all_ids = ids@.map_values(|s: String| s@);
        let ghost all_shares = shares@;
        let n = ids.len();
        let mut rest_ids = ids;
        let mut rest_shares = shares;
        let mut b = KeyBundle::new();
        let mut i: usize = 0;
        while i < n
            invariant
                n == all_ids.len(),
                n == all_shares.len(),
                i <= n,
                rest_ids@.len() == n - i,
                rest_ids@.map_values(|s: String| s@) == all_ids.subrange(i as int, n as int),
                rest_shares@ == all_shares.subrange(i as int, n as int),
                b.wf(),
                b.view() == entries_map(all_ids.take(i as int), all_shares.take(i as int)),
            decreases n - i,
        {
            let ghost before = rest_ids@;
            let id = rest_ids.remove(0);
            let share = rest_shares.remove(0);
            assert(id@ == all_ids[i as int]) by {
                assert(before.map_values(|s: String| s@)[0] == all_ids.subrange(i as int, n as int)[0]);
            }
            assert(share == all_shares[i as int]);
            b.insert(id, share);
            assert(all_ids.take(i + 1).drop_last() =~= all_ids.take(i as int));
            assert(all_shares.take(i + 1).drop_last() =~= all_shares.take(i as int));
            i = i + 1;
            assert forall|j: int| 0 <= j < rest_ids@.len() implies #[trigger] rest_ids@[j]@ == all_ids[i + j] by {
                assert(rest_ids@[j] == before[j + 1]);
                assert(before.map_values(|s: String| s@)[j + 1] == all_ids.subrange(i - 1, n as int)[j + 1]);
            }
            assert(rest_ids@.map_values(|s: String| s@) =~= all_ids.subrange(i as int, n as int));
            assert(rest_shares@ =~= all_shares.subrange(i as int, n as int));
        }
        assert(all_ids.take(n as int) =~= all_ids);
        assert(all_shares.take(n as int) =~= all_shares);
        b
    }
}

/// Taking a bundle apart into its entries and adding them back, in order, gives
/// the same bundle.
pub proof fn lemma_entries_round_trip<S>(b: KeyBundle<S>)
    requires
        b.wf(),
    ensures
        entries_map(b.entry_ids(), b.entry_shares()) == b.view(),
{
    lemma_entries_map_distinct(b.entry_ids(), b.entry_shares());
    let m = entries_map(b.entry_ids(), b.entry_shares());
    assert forall|k: Seq<char>| #[trigger] m.contains_key(k) implies m[k] == b.view()[k] by {
        let j = b.account_ids().index_of(k);
        assert(b.account_ids()[j] == k);
        b.lemma_entry(j);
    }
    assert(m =~= b.view());
}

/// Adding accounts one after another keeps each: after `a` then `b` (distinct), the
/// bundle holds both; adding `a` again replaces the share of `a` alone.
pub proof fn lemma_append_keeps_accounts<S>(
    bundle: Map<Seq<char>, S>,
    a: Seq<char>,
    share_a: S,
    b: Seq<char>,
    share_b: S,
    share_a2: S,
)
    requires
        a != b,
    ensures
        ({
            let after_two = bundle.insert(a, share_a).insert(b, share_b);
            let after_three = after_two.insert(a, share_a2);
            &&& after_two.contains_key(a) && after_two[a] == share_a
            &&& after_two.contains_key(b) && after_two[b] == share_b
            &&& after_three[a] == share_a2
            &&& after_three[b] == share_b
            &&& forall|k: Seq<char>| k != a ==> (#[trigger] after_three.contains_key(k)
                == after_two.contains_key(k)) && (after_two.contains_key(k) ==> after_three[k]
                == after_two[k])
        }),
{
}

} // verus!
