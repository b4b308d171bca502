//! The chart of accounts of a journal: account names with their balances in cents.
//!
//! An [`AccountBook`] is viewed as a `Map` from account names to balances. It keeps
//! its accounts in a vector in which no name occurs twice.

use vstd::prelude::*;

verus! {

/// One account of a journal with its balance in cents.
#[derive(Debug, PartialEq, Eq)]
pub struct Account {
    pub name: String,
    pub balance: i64,
}

impl Clone for Account {
    fn clone(&self) -> (copy: Account)
        ensures
            copy.name@ == self.name@,
            copy.balance == self.balance,
    {
        Account { name: self.name.clone(), balance: self.balance }
    }
}

/// No name occurs twice in `entries`.
pub open spec fn distinct_names(entries: Seq<Account>) -> bool {
    forall|i: int, j: int| 0 <= i < j < entries.len() ==> entries[i].name@ != entries[j].name@
}

/// Some entry carries `name`.
pub open spec fn has_name(entries: Seq<Account>, name: Seq<char>) -> bool {
    exists|i: int| 0 <= i < entries.len() && #[trigger] entries[i].name@ == name
}

/// The index of an entry that carries `name`.
pub open spec fn index_of_name(entries: Seq<Account>, name: Seq<char>) -> int {
    choose|i: int| 0 <= i < entries.len() && #[trigger] entries[i].name@ == name
}

/// The balances of `entries` by account name.
pub open spec fn balances_of(entries: Seq<Account>) -> Map<Seq<char>, int> {
    Map::new(
        |name: Seq<char>| has_name(entries, name),
        |name: Seq<char>| entries[index_of_name(entries, name)].balance as int,
    )
}

proof fn lemma_entry(entries: Seq<Account>, i: int)
    requires
        distinct_names(entries),
        0 <= i < entries.len(),
    ensures
        has_name(entries, entries[i].name@),
        index_of_name(entries, entries[i].name@) == i,
        balances_of(entries).contains_key(entries[i].name@),
        balances_of(entries)[entries[i].name@] == entries[i].balance,
{
    let name = entries[i].name@;
    assert(entries[i].name@ == name);
    let j = index_of_name(entries, name);
    assert(0 <= j < entries.len() && entries[j].name@ == name);
    if j < i {
        assert(entries[j].name@ != entries[i].name@);
    } else if i < j {
        assert(entries[i].name@ != entries[j].name@);
    }
}

proof fn lemma_push(entries: Seq<Account>, account: Account)
    requires
        distinct_names(entries),
        !has_name(entries, account.name@),
    ensures
        distinct_names(entries.push(account)),
        balances_of(entries.push(account)) == balances_of(entries).insert(
            account.name@,
            account.balance as int,
        ),
{
    let after = entries.push(account);
    assert forall|i: int, j: int| 0 <= i < j < after.len() implies after[i].name@
        != after[j].name@ by {
        if j == entries.len() {
            assert(entries[i].name@ == after[i].name@);
        }
    }
    let expected = balances_of(entries).insert(account.name@, account.balance as int);
    assert forall|name: Seq<char>| #[trigger]
        balances_of(after).dom().contains(name) implies expected.dom().contains(name) by {
        let i = index_of_name(after, name);
        if i < entries.len() {
            assert(entries[i].name@ == name);
        }
    }
    assert forall|name: Seq<char>| #[trigger]
        expected.dom().contains(name) implies balances_of(after).dom().contains(name)
        && balances_of(after)[name] == expected[name] by {
        if name == account.name@ {
            lemma_entry(after, entries.len() as int);
        } else {
            let i = index_of_name(entries, name);
            assert(after[i].name@ == name);
            lemma_entry(entries, i);
            lemma_entry(after, i);
        }
    }
    assert(balances_of(after) =~= expected);
}

proof fn lemma_update(entries: Seq<Account>, i: int, account: Account)
    requires
        distinct_names(entries),
        0 <= i < entries.len(),
        entries[i].name@ == account.name@,
    ensures
        distinct_names(entries.update(i, account)),
        balances_of(entries.update(i, account)) == balances_of(entries).insert(
            account.name@,
            account.balance as int,
        ),
{
    let after = entries.update(i, account);
    assert forall|a: int, b: int| 0 <= a < b < after.len() implies after[a].name@
        != after[b].name@ by {
        assert(after[a].name@ == entries[a].name@);
        assert(after[b].name@ == entries[b].name@);
    }
    let expected = balances_of(entries).insert(account.name@, account.balance as int);
    assert forall|name: Seq<char>| #[trigger]
        balances_of(after).dom().contains(name) implies expected.dom().contains(name) by {
        let k = index_of_name(after, name);
        assert(entries[k].name@ == name);
    }
    assert forall|name: Seq<char>| #[trigger]
        expected.dom().contains(name) implies balances_of(after).dom().contains(name)
        && balances_of(after)[name] == expected[name] by {
        if name == account.name@ {
            lemma_entry(after, i);
        } else {
            let k = index_of_name(entries, name);
            assert(after[k].name@ == name);
            lemma_entry(entries, k);
            lemma_entry(after, k);
        }
    }
    assert(balances_of(after) =~= expected);
}

proof fn lemma_remove(entries: Seq<Account>, i: int)
    requires
        distinct_names(entries),
        0 <= i < entries.len(),
    ensures
        distinct_names(entries.remove(i)),
        balances_of(entries.remove(i)) == balances_of(entries).remove(entries[i].name@),
{
    let after = entries.remove(i);
    let gone = entries[i].name@;
    assert forall|a: int| 0 <= a < after.len() implies #[trigger] after[a] == entries[if a < i {
        a
    } else {
        a + 1
    }] by {}
    assert forall|a: int, b: int| 0 <= a < b < after.len() implies after[a].name@
        != after[b].name@ by {
        let a0 = if a < i { a } else { a + 1 };
        let b0 = if b < i { b } else { b + 1 };
        assert(after[a] == entries[a0]);
        assert(after[b] == entries[b0]);
    }
    let expected = balances_of(entries).remove(gone);
    assert forall|name: Seq<char>| #[trigger]
        balances_of(after).dom().contains(name) implies expected.dom().contains(name) by {
        let k = index_of_name(after, name);
        let k0 = if k < i { k } else { k + 1 };
        assert(after[k] == entries[k0]);
        assert(entries[k0].name@ == name);
        if k0 < i {
            assert(entries[k0].name@ != entries[i].name@);
        } else {
            assert(entries[i].name@ != entries[k0].name@);
        }
    }
    assert forall|name: Seq<char>| #[trigger]
        expected.dom().contains(name) implies balances_of(after).dom().contains(name)
        && balances_of(after)[name] == expected[name] by {
        let k0 = index_of_name(entries, name);
        let k = if k0 < i { k0 } else { k0 - 1 };
        assert(after[k] == entries[k0]);
        assert(after[k].name@ == name);
        lemma_entry(entries, k0);
        lemma_entry(after, k);
    }
    assert(balances_of(after) =~= expected);
}

/// A map from account names to balances.
#[derive(Debug)]
pub struct AccountBook {
    entries: Vec<Account>,
}

impl View for AccountBook {
    type V = Map<Seq<char>, int>;

    closed spec fn view(&self) -> Map<Seq<char>, int> {
        balances_of(self.entries@)
    }
}

impl AccountBook {
    /// No account name occurs twice. Every constructor establishes this and
    /// every method keeps it.
    pub closed spec fn wf(self) -> bool {
        distinct_names(self.entries@)
    }

    /// The book without any account.
    pub fn new() -> (book: AccountBook)
        ensures
            book.wf(),
            book@ == Map::<Seq<char>, int>::empty(),
    {
        let book = AccountBook { entries: Vec::new() };
        assert(book@ =~= Map::<Seq<char>, int>::empty());
        book
    }

    fn find(&self, name: &String) -> (found: Option<usize>)
        requires
            self.wf(),
        ensures
            found is Some <==> self@.contains_key(name@),
            found matches Some(i) ==> i < self.entries.len() && self.entries[i as int].name@
                == name@ && self@[name@] == self.entries[i as int].balance,
    {
        let mut i: usize = 0;
        while i < self.entries.len()
            invariant
                self.wf(),
                i <= self.entries.len(),
                forall|k: int| 0 <= k < i ==> self.entries[k].name@ != name@,
            decreases self.entries.len() - i,
        {
            if self.entries[i].name == *name {
                proof {
                    lemma_entry(self.entries@, i as int);
                }
                return Some(i);
            }
            i += 1;
        }
        None
    }

    /// How many accounts the book holds.
    pub fn len(&self) -> (n: usize)
        requires
            self.wf(),
        ensures
            n == self@.dom().len(),
            self@.dom().finite(),
    {
        proof {
            self.lemma_len();
        }
        self.entries.len()
    }

    /// Whether the book holds the account `name`.
    pub fn contains(&self, name: &String) -> (b: bool)
        requires
            self.wf(),
        ensures
            b == self@.contains_key(name@),
    {
        self.find(name).is_some()
    }

    /// The balance of the account `name`, if the book holds it.
    pub fn get(&self, name: &String) -> (balance: Option<i64>)
        requires
            self.wf(),
        ensures
            balance is Some <==> self@.contains_key(name@),
            balance matches Some(b) ==> self@[name@] == b,
    {
        match self.find(name) {
            Some(i) => Some(self.entries[i].balance),
            None => None,
        }
    }

    /// Sets the balance of the account `name`, adding the account where the book lacks it.
    pub fn insert(&mut self, name: String, balance: i64)
        requires
            old(self).wf(),
        ensures
            final(self).wf(),
            final(self)@ == old(self)@.insert(name@, balance as int),
    {
        match self.find(&name) {
            Some(i) => {
                proof {
                    lemma_update(self.entries@, i as int, Account { name, balance });
                }
                self.entries.set(i, Account { name, balance });
            },
            None => {
                proof {
                    lemma_push(self.entries@, Account { name, balance });
                }
                self.entries.push(Account { name, balance });
            },
        }
    }

    /// Takes the account `name` out of the book, whatever its balance, and returns
    /// the balance it had.
    pub fn remove(&mut self, name: &String) -> (balance: Option<i64>)
        requires
            old(self).wf(),
        ensures
            final(self).wf(),
            final(self)@ == old(self)@.remove(name@),
            balance is Some <==> old(self)@.contains_key(name@),
            balance matches Some(b) ==> old(self)@[name@] == b,
    {
        match self.find(name) {
            Some(i) => {
                proof {
                    lemma_remove(self.entries@, i as int);
                }
                let account = self.entries.remove(i);
                Some(account.balance)
            },
            None => {
                assert(self@.remove(name@) =~= self@);
                None
            },
        }
    }

    /// The accounts of the book, each once.
    pub fn accounts(&self) -> (list: Vec<Account>)
        requires
            self.wf(),
        ensures
            distinct_names(list@),
            balances_of(list@) == self@,
            list@.len() == self@.dom().len(),
    {
        let mut list: Vec<Account> = Vec::new();
        let mut i: usize = 0;
        while i < self.entries.len()
            invariant
                i <= self.entries.len(),
                list@.len() == i,
                forall|k: int|
                    0 <= k < i ==> (#[trigger] list@[k]).name@ == self.entries@[k].name@
                        && list@[k].balance == self.entries@[k].balance,
            decreases self.entries.len() - i,
        {
            list.push(self.entries[i].clone());
            i += 1;
        }
        proof {
            lemma_same_balances(list@, self.entries@);
            self.lemma_len();
        }
        list
    }

    proof fn lemma_len(self)
        requires
            self.wf(),
        ensures
            self@.dom().finite(),
            self@.dom().len() == self.entries@.len(),
    {
        lemma_count(self.entries@);
    }
}

proof fn lemma_same_balances(a: Seq<Account>, b: Seq<Account>)
    requires
        distinct_names(b),
        a.len() == b.len(),
        forall|k: int|
            0 <= k < a.len() ==> (#[trigger] a[k]).name@ == b[k].name@ && a[k].balance
                == b[k].balance,
    ensures
        distinct_names(a),
        balances_of(a) == balances_of(b),
{
    assert forall|i: int, j: int| 0 <= i < j < a.len() implies a[i].name@ != a[j].name@ by {
        assert(a[i].name@ == b[i].name@);
        assert(a[j].name@ == b[j].name@);
    }
    assert forall|name: Seq<char>| balances_of(a).contains_key(name) implies balances_of(
        b,
    ).contains_key(name) && balances_of(b)[name] == balances_of(a)[name] by {
        let k = index_of_name(a, name);
        assert(a[k].name@ == b[k].name@);
        lemma_entry(a, k);
        lemma_entry(b, k);
    }
    assert forall|name: Seq<char>| balances_of(b).contains_key(name) implies balances_of(
        a,
    ).contains_key(name) by {
        let k = index_of_name(b, name);
        assert(a[k].name@ == b[k].name@);
        lemma_entry(a, k);
    }
    assert(balances_of(a) =~= balances_of(b));
}

proof fn lemma_count(entries: Seq<Account>)
    requires
        distinct_names(entries),
    ensures
        balances_of(entries).dom().finite(),
        balances_of(entries).dom().len() == entries.len(),
    decreases entries.len(),
{
    if entries.len() == 0 {
        assert(balances_of(entries).dom() =~= Set::<Seq<char>>::empty());
    } else {
        let front = entries.drop_last();
        let last = entries.last();
        assert(distinct_names(front));
        assert(!has_name(front, last.name@)) by {
            if has_name(front, last.name@) {
                let k = index_of_name(front, last.name@);
                assert(entries[k].name@ == front[k].name@);
                assert(entries[k].name@ != entries[entries.len() - 1].name@);
            }
        }
        lemma_count(front);
        lemma_push(front, last);
        assert(front.push(last) =~= entries);
        assert(balances_of(entries).dom() =~= balances_of(front).dom().insert(last.name@));
    }
}

} // verus!
