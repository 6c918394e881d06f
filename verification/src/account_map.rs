//! A table from accounts to values, kept as a list of pairs in which no
//! account occurs twice.

use crate::account::AccountId;
use vstd::prelude::*;

verus! {

/// Whether no account occurs twice in a list of pairs.
pub open spec fn distinct_accounts<V>(pairs: Seq<(AccountId, V)>) -> bool {
    forall|i: int, j: int| 0 <= i < j < pairs.len() ==> pairs[i].0 != pairs[j].0
}

/// Whether a list of pairs has a pair for `account`.
pub open spec fn has_account<V>(pairs: Seq<(AccountId, V)>, account: AccountId) -> bool {
    exists|i: int| 0 <= i < pairs.len() && pairs[i].0 == account
}

/// A position at which a list of pairs holds `account`.
pub open spec fn slot_of<V>(pairs: Seq<(AccountId, V)>, account: AccountId) -> int {
    choose|i: int| 0 <= i < pairs.len() && pairs[i].0 == account
}

/// The map that a list of pairs stands for: each account in it to the value
/// beside it.
pub open spec fn map_of<V>(pairs: Seq<(AccountId, V)>) -> Map<AccountId, V> {
    Map::new(
        |account: AccountId| has_account(pairs, account),
        |account: AccountId| pairs[slot_of(pairs, account)].1,
    )
}

/// In a list without repeated accounts, the map holds each pair as it
/// stands.
pub proof fn lemma_map_of_pair<V>(pairs: Seq<(AccountId, V)>, i: int)
    requires
        distinct_accounts(pairs),
        0 <= i < pairs.len(),
    ensures
        has_account(pairs, pairs[i].0),
        slot_of(pairs, pairs[i].0) == i,
        map_of(pairs).contains_key(pairs[i].0),
        map_of(pairs)[pairs[i].0] == pairs[i].1,
{
    let j = slot_of(pairs, pairs[i].0);
    assert(0 <= j < pairs.len() && pairs[j].0 == pairs[i].0);
    if i < j {
        assert(pairs[i].0 != pairs[j].0);
    } else if j < i {
        assert(pairs[j].0 != pairs[i].0);
    }
}

/// Every account of the map is the account of some pair of the list.
pub proof fn lemma_map_of_key<V>(pairs: Seq<(AccountId, V)>, account: AccountId)
    requires
        distinct_accounts(pairs),
        map_of(pairs).contains_key(account),
    ensures
        0 <= slot_of(pairs, account) < pairs.len(),
        pairs[slot_of(pairs, account)].0 == account,
        map_of(pairs)[account] == pairs[slot_of(pairs, account)].1,
{
}

/// A finite map from accounts to values of type `V`.
pub struct AccountMap<V> {
    pairs: Vec<(AccountId, V)>,
}

impl<V> View for AccountMap<V> {
    type V = Map<AccountId, V>;

    closed spec fn view(&self) -> Map<AccountId, V> {
        map_of(self.pairs@)
    }
}

impl<V> AccountMap<V> {
    /// No account occurs twice.
    pub closed spec fn wf(&self) -> bool {
        distinct_accounts(self.pairs@)
    }

    /// The empty table.
    pub fn new() -> (m: AccountMap<V>)
        ensures
            m.wf(),
            m@ == Map::<AccountId, V>::empty(),
    {
        let m = AccountMap { pairs: Vec::new() };
        assert(m@ =~= Map::<AccountId, V>::empty());
        m
    }

    /// The position of the pair of `account`, if the table has one.
    fn find(&self, account: &AccountId) -> (r: Option<usize>)
        requires
            self.wf(),
        ensures
            match r {
                Some(i) => i < self.pairs.len() && self.pairs[i as int].0 == *account,
                None => !has_account(self.pairs@, *account),
            },
    {
        let mut i: usize = 0;
        while i < self.pairs.len()
            invariant
                i <= self.pairs.len(),
                forall|k: int| 0 <= k < i ==> self.pairs[k].0 != *account,
            decreases self.pairs.len() - i,
        {
            if self.pairs[i].0 == *account {
                return Some(i);
            }
            i += 1;
        }
        None
    }

    /// Stores `value` for `account`, in place of any value it had.
    pub fn insert(&mut self, account: AccountId, value: V)
        requires
            old(self).wf(),
        ensures
            final(self).wf(),
            final(self)@ == old(self)@.insert(account, value),
    {
        let found = self.find(&account);
        let ghost before = self.pairs@;
        match found {
            Some(i) => {
                self.pairs[i] = (account, value);
                proof {
                    let after = self.pairs@;
                    assert forall|a: AccountId| has_account(after, a) == has_account(
                        before,
                        a,
                    ) by {
                        if has_account(before, a) {
                            assert(after[slot_of(before, a)].0 == a);
                        }
                        if has_account(after, a) {
                            assert(before[slot_of(after, a)].0 == a);
                        }
                    }
                    assert forall|a: AccountId| #[trigger]
                        map_of(after).contains_key(a) implies map_of(after)[a] == map_of(
                        before,
                    ).insert(account, value)[a] by {
                        let j = slot_of(after, a);
                        lemma_map_of_pair(before, j);
                        lemma_map_of_pair(before, i as int);
                    }
                    assert(map_of(after) =~= map_of(before).insert(account, value));
                }
            },
            None => {
                self.pairs.push((account, value));
                proof {
                    let after = self.pairs@;
                    let n = before.len() as int;
                    assert(after[n].0 == account);
                    assert forall|a: AccountId|
                        has_account(after, a) == (has_account(before, a) || a == account) by {
                        if has_account(before, a) {
                            assert(after[slot_of(before, a)].0 == a);
                        }
                    }
                    assert forall|a: AccountId| #[trigger]
                        map_of(after).contains_key(a) implies map_of(after)[a] == map_of(
                        before,
                    ).insert(account, value)[a] by {
                        let j = slot_of(after, a);
                        lemma_map_of_pair(after, j);
                        if j < n {
                            lemma_map_of_pair(before, j);
                        }
                    }
                    assert(map_of(after) =~= map_of(before).insert(account, value));
                }
            },
        }
    }

    /// The pairs of the table, each account once.
    pub fn into_entries(self) -> (pairs: Vec<(AccountId, V)>)
        requires
            self.wf(),
        ensures
            distinct_accounts(pairs@),
            map_of(pairs@) == self@,
    {
        self.pairs
    }

    /// The table of the given pairs, unless an account occurs twice in
    /// them.
    pub fn from_entries(pairs: Vec<(AccountId, V)>) -> (r: Option<AccountMap<V>>)
        ensures
            r is Some <==> distinct_accounts(pairs@),
            r matches Some(m) ==> m.wf() && m@ == map_of(pairs@),
    {
        let mut j: usize = 0;
        while j < pairs.len()
            invariant
                j <= pairs.len(),
                forall|a: int, b: int| 0 <= a < b < j ==> pairs[a].0 != pairs[b].0,
            decreases pairs.len() - j,
        {
            let mut i: usize = 0;
            while i < j
                invariant
                    i <= j < pairs.len(),
                    forall|a: int| 0 <= a < i ==> pairs[a].0 != pairs[j as int].0,
                decreases j - i,
            {
                if pairs[i].0 == pairs[j].0 {
                    return None;
                }
                i += 1;
            }
            j += 1;
        }
        Some(AccountMap { pairs })
    }
}

impl<V: Copy> AccountMap<V> {
    /// The value stored for `account`, if there is one.
    pub fn get(&self, account: &AccountId) -> (r: Option<V>)
        requires
            self.wf(),
        ensures
            r == (if self@.contains_key(*account) {
                Some(self@[*account])
            } else {
                None
            }),
    {
        match self.find(account) {
            Some(i) => {
                proof {
                    lemma_map_of_pair(self.pairs@, i as int);
                }
                Some(self.pairs[i].1)
            },
            None => None,
        }
    }
}

} // verus!
