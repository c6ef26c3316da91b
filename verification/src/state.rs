//! The world state: accounts with balance, nonce, code and storage, and the counter of
//! issued supply.

use crate::address::{AddressWithSpace, H256};
use crate::address_set::AddressSet;
use crate::bytes::{bytes_eq, copy_bytes};
use crate::uint::{pow256, U256};
use vstd::prelude::*;

verus! {

/// What an account holds, as mathematics.
pub struct AccountModel {
    pub balance: nat,
    pub nonce: nat,
    pub code: Option<Seq<u8>>,
    pub code_hash: Option<H256>,
    pub storage: Map<Seq<u8>, nat>,
}

/// The world state as mathematics: the accounts that exist, and the issued supply.
pub struct WorldState {
    pub accounts: Map<AddressWithSpace, AccountModel>,
    pub total_issued: nat,
}

impl AccountModel {
    /// A fresh account with the given nonce and nothing else.
    pub open spec fn fresh(nonce: nat) -> AccountModel {
        AccountModel { balance: 0, nonce, code: None, code_hash: None, storage: Map::empty() }
    }
}

impl WorldState {
    pub open spec fn has_account(self, a: AddressWithSpace) -> bool {
        self.accounts.contains_key(a)
    }

    /// The nonce of an account; zero for one that does not exist.
    pub open spec fn nonce(self, a: AddressWithSpace) -> nat {
        if self.has_account(a) {
            self.accounts[a].nonce
        } else {
            0
        }
    }

    /// The balance of an account; zero for one that does not exist.
    pub open spec fn balance(self, a: AddressWithSpace) -> nat {
        if self.has_account(a) {
            self.accounts[a].balance
        } else {
            0
        }
    }

    pub open spec fn code(self, a: AddressWithSpace) -> Option<Seq<u8>> {
        if self.has_account(a) {
            self.accounts[a].code
        } else {
            None
        }
    }

    pub open spec fn code_hash(self, a: AddressWithSpace) -> Option<H256> {
        if self.has_account(a) {
            self.accounts[a].code_hash
        } else {
            None
        }
    }

    /// The value stored under a key; zero where nothing was stored.
    pub open spec fn storage_at(self, a: AddressWithSpace, key: Seq<u8>) -> nat {
        if self.has_account(a) && self.accounts[a].storage.contains_key(key) {
            self.accounts[a].storage[key]
        } else {
            0
        }
    }

    /// The account as it is, or a fresh one with nonce `start_nonce` where none exists.
    pub open spec fn account_or_fresh(self, a: AddressWithSpace, start_nonce: nat) -> AccountModel {
        if self.has_account(a) {
            self.accounts[a]
        } else {
            AccountModel::fresh(start_nonce)
        }
    }

    /// The state with one account replaced or created.
    pub open spec fn with_account(self, a: AddressWithSpace, account: AccountModel) -> WorldState {
        WorldState { accounts: self.accounts.insert(a, account), ..self }
    }

    /// The state after the nonce of `a` went up by one, the account created with nonce
    /// `start_nonce` first where it did not exist.
    pub open spec fn inc_nonce(self, a: AddressWithSpace, start_nonce: nat) -> WorldState {
        let old = self.account_or_fresh(a, start_nonce);
        self.with_account(a, AccountModel { nonce: old.nonce + 1, ..old })
    }

    /// The state after `amount` was credited to `a`. Crediting nothing changes nothing;
    /// crediting something to an account that does not exist creates it with nonce
    /// `start_nonce`.
    pub open spec fn add_balance(self, a: AddressWithSpace, amount: nat, start_nonce: nat) -> WorldState {
        if amount == 0 {
            self
        } else {
            let old = self.account_or_fresh(a, start_nonce);
            self.with_account(a, AccountModel { balance: old.balance + amount, ..old })
        }
    }

    /// The state after `amount` was taken from `a`, which holds at least that much.
    pub open spec fn sub_balance(self, a: AddressWithSpace, amount: nat) -> WorldState
        recommends
            self.balance(a) >= amount,
    {
        if amount == 0 {
            self
        } else {
            let old = self.accounts[a];
            self.with_account(a, AccountModel { balance: (old.balance - amount) as nat, ..old })
        }
    }

    /// The state after a value was stored, the account created empty where it did not exist.
    pub open spec fn set_storage(self, a: AddressWithSpace, key: Seq<u8>, value: nat) -> WorldState {
        let old = self.account_or_fresh(a, 0);
        self.with_account(a, AccountModel { storage: old.storage.insert(key, value), ..old })
    }

    /// The state without the account `a`: its code, its storage and its record are gone.
    pub open spec fn remove_contract(self, a: AddressWithSpace) -> WorldState {
        WorldState { accounts: self.accounts.remove(a), ..self }
    }

    /// The state after `amount` left the issued supply, which does not go below zero.
    pub open spec fn subtract_total_issued(self, amount: nat) -> WorldState {
        WorldState {
            total_issued: if self.total_issued >= amount {
                (self.total_issued - amount) as nat
            } else {
                0
            },
            ..self
        }
    }
}


/// One slot of an account's storage.
#[derive(Debug)]
pub struct StorageEntry {
    pub key: Vec<u8>,
    pub value: U256,
}

/// An account: balance, nonce, optional code with its hash, and storage.
#[derive(Debug)]
pub struct Account {
    pub balance: U256,
    pub nonce: U256,
    pub code: Option<Vec<u8>>,
    pub code_hash: Option<H256>,
    pub storage: Vec<StorageEntry>,
}

/// The mapping that a list of storage slots stands for: a later slot overrides an earlier
/// one with the same key.
pub open spec fn storage_map(slots: Seq<StorageEntry>) -> Map<Seq<u8>, nat>
    decreases slots.len(),
{
    if slots.len() == 0 {
        Map::empty()
    } else {
        storage_map(slots.drop_last()).insert(slots.last().key@, slots.last().value@)
    }
}

impl View for Account {
    type V = AccountModel;

    open spec fn view(&self) -> AccountModel {
        AccountModel {
            balance: self.balance@,
            nonce: self.nonce@,
            code: match self.code {
                Some(c) => Some(c@),
                None => None,
            },
            code_hash: self.code_hash,
            storage: storage_map(self.storage@),
        }
    }
}

/// The value that a list of storage slots holds under a key; zero where it holds none.
pub open spec fn storage_lookup(slots: Seq<StorageEntry>, key: Seq<u8>) -> nat {
    if storage_map(slots).contains_key(key) {
        storage_map(slots)[key]
    } else {
        0
    }
}

/// Taking out a slot changes the mapping at most under that slot's key.
pub proof fn lemma_storage_remove(slots: Seq<StorageEntry>, i: int)
    requires
        0 <= i < slots.len(),
    ensures
        storage_map(slots.remove(i)).remove(slots[i].key@) == storage_map(slots).remove(slots[i].key@),
    decreases slots.len(),
{
    let out = slots.remove(i);
    let rest = slots.drop_last();
    if i == slots.len() - 1 {
        assert(out == rest);
        assert(storage_map(out).remove(slots[i].key@) =~= storage_map(slots).remove(slots[i].key@));
    } else {
        lemma_storage_remove(rest, i);
        assert(rest[i] == slots[i]);
        assert(out.drop_last() == rest.remove(i));
        assert(out.last() == slots.last());
        assert(storage_map(out).remove(slots[i].key@) =~= storage_map(rest.remove(i)).remove(
            slots[i].key@,
        ).insert(slots.last().key@, slots.last().value@).remove(slots[i].key@));
        assert(storage_map(slots).remove(slots[i].key@) =~= storage_map(rest).remove(slots[i].key@).insert(
            slots.last().key@,
            slots.last().value@,
        ).remove(slots[i].key@));
    }
}

impl Account {
    /// The value stored under a key; zero where nothing was stored.
    pub fn storage_at(&self, key: &[u8]) -> (r: U256)
        ensures
            r@ == storage_lookup(self.storage@, key@),
    {
        let mut i: usize = self.storage.len();
        assert(self.storage@.subrange(0, i as int) =~= self.storage@);
        while i > 0
            invariant
                i <= self.storage.len(),
                storage_lookup(self.storage@, key@) == storage_lookup(self.storage@.subrange(0, i as int), key@),
            decreases i,
        {
            let ghost prefix = self.storage@.subrange(0, i as int);
            i -= 1;
            assert(prefix.drop_last() =~= self.storage@.subrange(0, i as int));
            assert(prefix.last() == self.storage@[i as int]);
            if bytes_eq(self.storage[i].key.as_slice(), key) {
                return self.storage[i].value;
            }
        }
        U256::zero()
    }

    /// The position of the first slot with the given key; `None` where no slot has it.
    fn find_slot(&self, key: &[u8]) -> (r: Option<usize>)
        ensures
            match r {
                Some(i) => i < self.storage@.len() && self.storage@[i as int].key@ == key@ && forall|j: int|
                    0 <= j < i ==> (#[trigger] self.storage@[j]).key@ != key@,
                None => forall|j: int| 0 <= j < self.storage@.len() ==> (#[trigger] self.storage@[j]).key@ != key@,
            },
    {
        let mut i: usize = 0;
        while i < self.storage.len()
            invariant
                i <= self.storage.len(),
                forall|j: int| 0 <= j < i ==> (#[trigger] self.storage@[j]).key@ != key@,
            decreases self.storage.len() - i,
        {
            if bytes_eq(self.storage[i].key.as_slice(), key) {
                return Some(i);
            }
            i += 1;
        }
        None
    }

    /// Stores a value under a key.
    pub fn set_storage(&mut self, key: Vec<u8>, value: U256)
        ensures
            final(self)@ == (AccountModel { storage: old(self)@.storage.insert(key@, value@), ..old(self)@ }),
    {
        match self.find_slot(key.as_slice()) {
            Some(i) => {
                proof {
                    lemma_storage_remove(self.storage@, i as int);
                }
                let ghost before = self.storage@;
                self.storage.remove(i);
                let ghost mid = self.storage@;
                self.storage.push(StorageEntry { key, value });
                assert(self.storage@.drop_last() == mid);
                assert(storage_map(self.storage@) =~= storage_map(mid).remove(key@).insert(key@, value@));
                assert(storage_map(self.storage@) =~= storage_map(before).insert(key@, value@));
            },
            None => {
                let ghost before = self.storage@;
                self.storage.push(StorageEntry { key, value });
                assert(self.storage@.drop_last() == before);
            },
        }
    }
}

/// Two lists of slots that agree slot by slot stand for the same mapping.
pub proof fn lemma_storage_map_congruent(a: Seq<StorageEntry>, b: Seq<StorageEntry>)
    requires
        a.len() == b.len(),
        forall|i: int| 0 <= i < a.len() ==> a[i].key@ == b[i].key@ && a[i].value == b[i].value,
    ensures
        storage_map(a) == storage_map(b),
    decreases a.len(),
{
    if a.len() > 0 {
        lemma_storage_map_congruent(a.drop_last(), b.drop_last());
    }
}

impl Account {
    /// A copy of the account.
    pub fn duplicate(&self) -> (r: Account)
        ensures
            r@ == self@,
            r.balance == self.balance,
    {
        let code = match &self.code {
            Some(c) => Some(copy_bytes(c.as_slice())),
            None => None,
        };
        let mut storage: Vec<StorageEntry> = Vec::new();
        let mut i: usize = 0;
        while i < self.storage.len()
            invariant
                i <= self.storage.len(),
                storage@.len() == i,
                forall|j: int|
                    0 <= j < i ==> storage@[j].key@ == self.storage@[j].key@ && storage@[j].value
                        == self.storage@[j].value,
            decreases self.storage.len() - i,
        {
            storage.push(
                StorageEntry { key: copy_bytes(self.storage[i].key.as_slice()), value: self.storage[i].value },
            );
            i += 1;
        }
        proof {
            lemma_storage_map_congruent(storage@, self.storage@);
        }
        Account { balance: self.balance, nonce: self.nonce, code, code_hash: self.code_hash, storage }
    }
}

/// Two lists of entries that agree entry by entry stand for the same mapping and hold the
/// same sum of balances; if one has no repeated address, neither has the other.
pub proof fn lemma_accounts_congruent(a: Seq<AccountEntry>, b: Seq<AccountEntry>)
    requires
        a.len() == b.len(),
        forall|i: int|
            0 <= i < a.len() ==> a[i].address == b[i].address && a[i].account@ == b[i].account@,
    ensures
        accounts_map(a) == accounts_map(b),
        sum_balances(a) == sum_balances(b),
        distinct_addresses(b) ==> distinct_addresses(a),
    decreases a.len(),
{
    if a.len() > 0 {
        lemma_accounts_congruent(a.drop_last(), b.drop_last());
    }
    if distinct_addresses(b) {
        assert forall|i: int, j: int|
            0 <= i < a.len() && 0 <= j < a.len() && i != j implies (#[trigger] a[i]).address != (#[trigger] a[j]).address by {
            assert(b[i].address != b[j].address);
        }
    }
}

/// An account together with the address it lives at.
#[derive(Debug)]
pub struct AccountEntry {
    pub address: AddressWithSpace,
    pub account: Account,
}

/// No address occurs twice in the list.
pub open spec fn distinct_addresses(entries: Seq<AccountEntry>) -> bool {
    forall|i: int, j: int|
        0 <= i < entries.len() && 0 <= j < entries.len() && i != j ==> (#[trigger] entries[i]).address
            != (#[trigger] entries[j]).address
}

/// The mapping from address to account that a list of entries stands for.
pub open spec fn accounts_map(entries: Seq<AccountEntry>) -> Map<AddressWithSpace, AccountModel>
    decreases entries.len(),
{
    if entries.len() == 0 {
        Map::empty()
    } else {
        accounts_map(entries.drop_last()).insert(entries.last().address, entries.last().account@)
    }
}

/// The sum of the balances of a list of entries.
pub open spec fn sum_balances(entries: Seq<AccountEntry>) -> nat
    decreases entries.len(),
{
    if entries.len() == 0 {
        0
    } else {
        sum_balances(entries.drop_last()) + entries.last().account.balance@
    }
}

/// An address is in the mapping exactly when some entry carries it.
pub proof fn lemma_accounts_map_domain(entries: Seq<AccountEntry>, a: AddressWithSpace)
    ensures
        accounts_map(entries).contains_key(a) <==> exists|i: int|
            0 <= i < entries.len() && (#[trigger] entries[i]).address == a,
    decreases entries.len(),
{
    if entries.len() > 0 {
        let rest = entries.drop_last();
        lemma_accounts_map_domain(rest, a);
        if accounts_map(entries).contains_key(a) {
            if entries.last().address == a {
                assert(entries[entries.len() - 1].address == a);
            } else {
                let i = choose|i: int| 0 <= i < rest.len() && (#[trigger] rest[i]).address == a;
                assert(entries[i].address == a);
            }
        }
        if exists|i: int| 0 <= i < entries.len() && (#[trigger] entries[i]).address == a {
            let i = choose|i: int| 0 <= i < entries.len() && (#[trigger] entries[i]).address == a;
            if i < entries.len() - 1 {
                assert(rest[i].address == a);
            }
        }
    }
}

/// Where no address occurs twice, the mapping gives each entry's own account.
pub proof fn lemma_accounts_map_at(entries: Seq<AccountEntry>, i: int)
    requires
        distinct_addresses(entries),
        0 <= i < entries.len(),
    ensures
        accounts_map(entries).contains_key(entries[i].address),
        accounts_map(entries)[entries[i].address] == entries[i].account@,
    decreases entries.len(),
{
    let rest = entries.drop_last();
    if i < entries.len() - 1 {
        assert(distinct_addresses(rest)) by {
            assert forall|x: int, y: int|
                0 <= x < rest.len() && 0 <= y < rest.len() && x != y implies (#[trigger] rest[x]).address
                != (#[trigger] rest[y]).address by {
                assert(entries[x].address != entries[y].address);
            }
        }
        lemma_accounts_map_at(rest, i);
        assert(rest[i] == entries[i]);
        assert(entries[i].address != entries[entries.len() - 1].address);
    }
}

/// Taking one entry out of a list without repeated addresses removes its address from the
/// mapping, lowers the sum of balances by its balance, and leaves the list without repeats.
pub proof fn lemma_remove_entry(entries: Seq<AccountEntry>, i: int)
    requires
        distinct_addresses(entries),
        0 <= i < entries.len(),
    ensures
        distinct_addresses(entries.remove(i)),
        accounts_map(entries.remove(i)) == accounts_map(entries).remove(entries[i].address),
        sum_balances(entries.remove(i)) + entries[i].account.balance@ == sum_balances(entries),
    decreases entries.len(),
{
    let out = entries.remove(i);
    assert(distinct_addresses(out)) by {
        assert forall|x: int, y: int|
            0 <= x < out.len() && 0 <= y < out.len() && x != y implies (#[trigger] out[x]).address
            != (#[trigger] out[y]).address by {
            let xx = if x < i { x } else { x + 1 };
            let yy = if y < i { y } else { y + 1 };
            assert(entries[xx].address != entries[yy].address);
        }
    }
    let rest = entries.drop_last();
    if i == entries.len() - 1 {
        assert(out == rest);
        lemma_accounts_map_domain(rest, entries[i].address);
        if accounts_map(rest).contains_key(entries[i].address) {
            let j = choose|j: int| 0 <= j < rest.len() && (#[trigger] rest[j]).address == entries[i].address;
            assert(entries[j].address == entries[i].address);
        }
        assert(accounts_map(out) =~= accounts_map(entries).remove(entries[i].address));
    } else {
        assert(distinct_addresses(rest)) by {
            assert forall|x: int, y: int|
                0 <= x < rest.len() && 0 <= y < rest.len() && x != y implies (#[trigger] rest[x]).address
                != (#[trigger] rest[y]).address by {
                assert(entries[x].address != entries[y].address);
            }
        }
        lemma_remove_entry(rest, i);
        assert(rest[i] == entries[i]);
        assert(out.drop_last() == rest.remove(i));
        assert(out.last() == entries.last());
        assert(entries[i].address != entries[entries.len() - 1].address);
        assert(accounts_map(out) =~= accounts_map(entries).remove(entries[i].address));
    }
}


/// Whether balance changes record the account in the set of touched addresses.
#[derive(Clone, Copy, Debug, PartialEq, Eq, Structural)]
pub enum CleanupMode {
    /// Nothing is recorded.
    NoEmpty,
    /// Every account whose balance is credited or debited is recorded as touched.
    TrackTouched,
}

/// The set of touched addresses after a balance change of `a` under `mode`.
pub open spec fn touched_after(
    mode: CleanupMode,
    touched: Set<AddressWithSpace>,
    a: AddressWithSpace,
) -> Set<AddressWithSpace> {
    match mode {
        CleanupMode::NoEmpty => touched,
        CleanupMode::TrackTouched => touched.insert(a),
    }
}

/// The world state.
#[derive(Debug)]
pub struct State {
    entries: Vec<AccountEntry>,
    total_issued: U256,
}

impl View for State {
    type V = WorldState;

    closed spec fn view(&self) -> WorldState {
        WorldState { accounts: accounts_map(self.entries@), total_issued: self.total_issued@ }
    }
}

impl State {
    #[verifier::type_invariant]
    spec fn inv(self) -> bool {
        distinct_addresses(self.entries@)
    }

    /// The sum of the balances of all accounts.
    pub closed spec fn total_balance(&self) -> nat {
        sum_balances(self.entries@)
    }

    /// A state without accounts, with the given issued supply.
    pub fn new(total_issued: U256) -> (r: State)
        ensures
            r@ == (WorldState { accounts: Map::empty(), total_issued: total_issued@ }),
            r.total_balance() == 0,
    {
        State { entries: Vec::new(), total_issued }
    }

    /// The position of an account's entry.
    fn find(&self, a: &AddressWithSpace) -> (r: Option<usize>)
        ensures
            match r {
                Some(i) => i < self.entries@.len() && self.entries@[i as int].address == *a
                    && self@.has_account(*a) && self@.accounts[*a] == self.entries@[i as int].account@,
                None => !self@.has_account(*a),
            },
    {
        proof {
            use_type_invariant(self);
            lemma_accounts_map_domain(self.entries@, *a);
        }
        let mut i: usize = 0;
        while i < self.entries.len()
            invariant
                i <= self.entries.len(),
                distinct_addresses(self.entries@),
                forall|j: int| 0 <= j < i ==> (#[trigger] self.entries@[j]).address != *a,
            decreases self.entries.len() - i,
        {
            if self.entries[i].address == *a {
                proof {
                    lemma_accounts_map_at(self.entries@, i as int);
                }
                return Some(i);
            }
            i += 1;
        }
        None
    }

    /// Whether the account exists.
    pub fn account_exists(&self, a: &AddressWithSpace) -> (r: bool)
        ensures
            r == self@.has_account(*a),
    {
        self.find(a).is_some()
    }

    /// The nonce of an account; zero for one that does not exist.
    pub fn nonce(&self, a: &AddressWithSpace) -> (r: U256)
        ensures
            r@ == self@.nonce(*a),
    {
        match self.find(a) {
            Some(i) => self.entries[i].account.nonce,
            None => U256::zero(),
        }
    }

    /// The balance of an account; zero for one that does not exist.
    pub fn balance(&self, a: &AddressWithSpace) -> (r: U256)
        ensures
            r@ == self@.balance(*a),
    {
        match self.find(a) {
            Some(i) => self.entries[i].account.balance,
            None => U256::zero(),
        }
    }

    /// The hash of an account's code, where it has one.
    pub fn code_hash(&self, a: &AddressWithSpace) -> (r: Option<H256>)
        ensures
            r == self@.code_hash(*a),
    {
        match self.find(a) {
            Some(i) => self.entries[i].account.code_hash,
            None => None,
        }
    }

    /// The issued supply.
    pub fn total_issued(&self) -> (r: U256)
        ensures
            r@ == self@.total_issued,
    {
        self.total_issued
    }

    /// Takes `amount` out of the issued supply, which does not go below zero.
    pub fn subtract_total_issued(&mut self, amount: U256)
        ensures
            final(self)@ == old(self)@.subtract_total_issued(amount@),
            final(self).total_balance() == old(self).total_balance(),
    {
        proof {
            use_type_invariant(&*self);
        }
        self.total_issued = self.total_issued.saturating_sub(&amount);
    }

    /// Takes the entry of `a` out of the list, or makes a fresh one with nonce
    /// `start_nonce`.
    fn take_or_fresh(entries: &mut Vec<AccountEntry>, a: &AddressWithSpace, found: Option<usize>, start_nonce: U256) -> (r: AccountEntry)
        requires
            distinct_addresses(old(entries)@),
            match found {
                Some(i) => i < old(entries)@.len() && old(entries)@[i as int].address == *a,
                None => !accounts_map(old(entries)@).contains_key(*a),
            },
        ensures
            distinct_addresses(final(entries)@),
            r.address == *a,
            !accounts_map(final(entries)@).contains_key(*a),
            accounts_map(final(entries)@) == accounts_map(old(entries)@).remove(*a),
            r.account@ == (WorldState { accounts: accounts_map(old(entries)@), total_issued: 0 }).account_or_fresh(*a, start_nonce@),
            sum_balances(final(entries)@) + r.account.balance@ == sum_balances(old(entries)@),
    {
        match found {
            Some(i) => {
                proof {
                    lemma_remove_entry(entries@, i as int);
                    lemma_accounts_map_at(entries@, i as int);
                }
                entries.remove(i)
            },
            None => {
                assert(accounts_map(entries@).remove(*a) =~= accounts_map(entries@));
                AccountEntry {
                    address: *a,
                    account: Account {
                        balance: U256::zero(),
                        nonce: start_nonce,
                        code: None,
                        code_hash: None,
                        storage: Vec::new(),
                    },
                }
            },
        }
    }

    /// Puts an entry whose address is not in the list at its end.
    fn put(entries: &mut Vec<AccountEntry>, entry: AccountEntry)
        requires
            distinct_addresses(old(entries)@),
            !accounts_map(old(entries)@).contains_key(entry.address),
        ensures
            distinct_addresses(final(entries)@),
            accounts_map(final(entries)@) == accounts_map(old(entries)@).insert(entry.address, entry.account@),
            sum_balances(final(entries)@) == sum_balances(old(entries)@) + entry.account.balance@,
    {
        proof {
            lemma_accounts_map_domain(entries@, entry.address);
        }
        let ghost before = entries@;
        entries.push(entry);
        assert(entries@.drop_last() == before);
    }

    /// Raises the nonce of `a` by one. Where the account does not exist it is created
    /// first, with nonce `start_nonce`.
    pub fn inc_nonce(&mut self, a: &AddressWithSpace, start_nonce: &U256)
        requires
            old(self)@.account_or_fresh(*a, start_nonce@).nonce + 1 < pow256(),
        ensures
            final(self)@ == old(self)@.inc_nonce(*a, start_nonce@),
            final(self).total_balance() == old(self).total_balance(),
    {
        proof {
            use_type_invariant(&*self);
        }
        let found = self.find(a);
        let mut entries = Vec::new();
        std::mem::swap(&mut entries, &mut self.entries);
        let mut entry = Self::take_or_fresh(&mut entries, a, found, *start_nonce);
        entry.account.nonce = entry.account.nonce.add(&U256::from_u64(1));
        Self::put(&mut entries, entry);
        self.entries = entries;
        assert(self@.accounts =~= old(self)@.inc_nonce(*a, start_nonce@).accounts);
    }

    /// Credits `amount` to `a`. Crediting nothing changes no account; crediting something
    /// to an account that does not exist creates it with nonce `start_nonce`. Under
    /// `TrackTouched` the address is recorded in `touched`.
    pub fn add_balance(
        &mut self,
        a: &AddressWithSpace,
        amount: &U256,
        mode: CleanupMode,
        touched: &mut AddressSet,
        start_nonce: U256,
    )
        requires
            old(self)@.balance(*a) + amount@ < pow256(),
        ensures
            final(self)@ == old(self)@.add_balance(*a, amount@, start_nonce@),
            final(self).total_balance() == old(self).total_balance() + amount@,
            final(touched)@ == touched_after(mode, old(touched)@, *a),
    {
        proof {
            use_type_invariant(&*self);
        }
        if mode == CleanupMode::TrackTouched {
            touched.insert(*a);
        }
        if !amount.is_zero() {
            let found = self.find(a);
            let mut entries = Vec::new();
            std::mem::swap(&mut entries, &mut self.entries);
            let mut entry = Self::take_or_fresh(&mut entries, a, found, start_nonce);
            entry.account.balance = entry.account.balance.add(amount);
            Self::put(&mut entries, entry);
            self.entries = entries;
            assert(self@.accounts =~= old(self)@.add_balance(*a, amount@, start_nonce@).accounts);
        }
    }

    /// Debits `amount` from `a`, which holds at least that much. Under `TrackTouched` the
    /// address is recorded in `touched`.
    pub fn sub_balance(
        &mut self,
        a: &AddressWithSpace,
        amount: &U256,
        mode: CleanupMode,
        touched: &mut AddressSet,
    )
        requires
            old(self)@.balance(*a) >= amount@,
        ensures
            final(self)@ == old(self)@.sub_balance(*a, amount@),
            final(self).total_balance() + amount@ == old(self).total_balance(),
            final(touched)@ == touched_after(mode, old(touched)@, *a),
    {
        proof {
            use_type_invariant(&*self);
        }
        if mode == CleanupMode::TrackTouched {
            touched.insert(*a);
        }
        if !amount.is_zero() {
            let found = self.find(a);
            let mut entries = Vec::new();
            std::mem::swap(&mut entries, &mut self.entries);
            let mut entry = Self::take_or_fresh(&mut entries, a, found, U256::zero());
            entry.account.balance = entry.account.balance.sub(amount);
            Self::put(&mut entries, entry);
            self.entries = entries;
            assert(self@.accounts =~= old(self)@.sub_balance(*a, amount@).accounts);
        }
    }

    /// A copy of an account's code, where it has one.
    pub fn code(&self, a: &AddressWithSpace) -> (r: Option<Vec<u8>>)
        ensures
            match r {
                Some(c) => self@.code(*a) == Some(c@),
                None => self@.code(*a) is None,
            },
    {
        match self.find(a) {
            Some(i) => match &self.entries[i].account.code {
                Some(c) => Some(copy_bytes(c.as_slice())),
                None => None,
            },
            None => None,
        }
    }

    /// Gives an account its code and the hash of that code, creating the account empty
    /// where it does not exist.
    pub fn init_code(&mut self, a: &AddressWithSpace, code: Vec<u8>, code_hash: H256)
        ensures
            final(self)@ == old(self)@.with_account(
                *a,
                AccountModel {
                    code: Some(code@),
                    code_hash: Some(code_hash),
                    ..old(self)@.account_or_fresh(*a, 0)
                },
            ),
            final(self).total_balance() == old(self).total_balance(),
    {
        proof {
            use_type_invariant(&*self);
        }
        let found = self.find(a);
        let mut entries = Vec::new();
        std::mem::swap(&mut entries, &mut self.entries);
        let mut entry = Self::take_or_fresh(&mut entries, a, found, U256::zero());
        entry.account.code = Some(code);
        entry.account.code_hash = Some(code_hash);
        Self::put(&mut entries, entry);
        self.entries = entries;
        assert(self@.accounts =~= old(self)@.with_account(
            *a,
            AccountModel {
                code: Some(code@),
                code_hash: Some(code_hash),
                ..old(self)@.account_or_fresh(*a, 0)
            },
        ).accounts);
    }

    /// The value stored under a key of an account; zero where nothing was stored.
    pub fn storage_at(&self, a: &AddressWithSpace, key: &[u8]) -> (r: U256)
        ensures
            r@ == self@.storage_at(*a, key@),
    {
        match self.find(a) {
            Some(i) => self.entries[i].account.storage_at(key),
            None => U256::zero(),
        }
    }

    /// Stores a value under a key of an account, creating the account empty where it does
    /// not exist.
    pub fn set_storage(&mut self, a: &AddressWithSpace, key: Vec<u8>, value: U256)
        ensures
            final(self)@ == old(self)@.set_storage(*a, key@, value@),
            final(self).total_balance() == old(self).total_balance(),
    {
        proof {
            use_type_invariant(&*self);
        }
        let found = self.find(a);
        let mut entries = Vec::new();
        std::mem::swap(&mut entries, &mut self.entries);
        let mut entry = Self::take_or_fresh(&mut entries, a, found, U256::zero());
        entry.account.set_storage(key, value);
        Self::put(&mut entries, entry);
        self.entries = entries;
        assert(self@.accounts =~= old(self)@.set_storage(*a, key@, value@).accounts);
    }

    /// Deletes an account: its code, its storage and its record. The balance it held is
    /// gone from the sum of balances.
    pub fn remove_contract(&mut self, a: &AddressWithSpace)
        ensures
            final(self)@ == old(self)@.remove_contract(*a),
            final(self).total_balance() + old(self)@.balance(*a) == old(self).total_balance(),
    {
        proof {
            use_type_invariant(&*self);
        }
        match self.find(a) {
            Some(i) => {
                proof {
                    lemma_remove_entry(self.entries@, i as int);
                }
                let mut entries = Vec::new();
                std::mem::swap(&mut entries, &mut self.entries);
                entries.remove(i);
                self.entries = entries;
            },
            None => {
                assert(self@.accounts.remove(*a) =~= self@.accounts);
            },
        }
    }

    /// A copy of the whole state, to come back to.
    pub fn snapshot(&self) -> (r: State)
        ensures
            r@ == self@,
            r.total_balance() == self.total_balance(),
    {
        proof {
            use_type_invariant(self);
        }
        let mut entries: Vec<AccountEntry> = Vec::new();
        let mut i: usize = 0;
        while i < self.entries.len()
            invariant
                i <= self.entries.len(),
                entries@.len() == i,
                forall|j: int|
                    0 <= j < i ==> entries@[j].address == self.entries@[j].address && entries@[j].account@
                        == self.entries@[j].account@,
            decreases self.entries.len() - i,
        {
            entries.push(
                AccountEntry { address: self.entries[i].address, account: self.entries[i].account.duplicate() },
            );
            i += 1;
        }
        proof {
            lemma_accounts_congruent(entries@, self.entries@);
        }
        State { entries, total_issued: self.total_issued }
    }
}

} // verus!
