//! Storage backends for PerpDex state.
use vstd::prelude::*;

use super::assoc::{
    assoc_view, has_key, keys_unique, lemma_assoc_absent, lemma_assoc_at, lemma_assoc_push,
    lemma_assoc_remove, lemma_assoc_update,
};
use super::state::{PerpDexLocation, PerpDexValue};
use super::state_traits::StateValue;
use crate::primitives::address::Address;
use crate::primitives::u256::U256;

verus! {

/// Error of a storage operation.
#[derive(Clone, Debug)]
pub enum StorageError {
    /// Key not found.
    NotFound(PerpDexLocation),
    /// Invalid state.
    InvalidState(String),
}

/// Storage backend for PerpDex state (in memory, RPC, database, ...).
///
/// Each read is a function of the storage's state, which `spec_get`,
/// `spec_user_orders` and `spec_all_user_orders` name.
pub trait PerpDexStorage: Sized {
    /// The backend's internal invariant.
    spec fn inv(&self) -> bool;

    /// What `get` returns for `location`.
    spec fn spec_get(&self, location: PerpDexLocation) -> Result<Option<PerpDexValue>, StorageError>;

    /// What `get_user_orders` returns.
    spec fn spec_user_orders(&self, user: Address, market_id: u64) -> Result<Seq<u64>, StorageError>;

    /// What `get_all_user_orders` returns.
    spec fn spec_all_user_orders(&self, user: Address) -> Result<Seq<u64>, StorageError>;

    /// What `get_all_user_order_keys` returns.
    spec fn spec_all_user_order_keys(&self, user: Address) -> Result<Seq<(u64, u64)>, StorageError>;

    /// Reads a value.
    fn get(&self, location: &PerpDexLocation) -> (r: Result<Option<PerpDexValue>, StorageError>)
        requires
            self.inv(),
        ensures
            r == self.spec_get(*location),
    ;

    /// Writes a value; a later read gives it back.
    fn set(&mut self, location: PerpDexLocation, value: PerpDexValue) -> (r: Result<(), StorageError>)
        requires
            old(self).inv(),
        ensures
            final(self).inv(),
            r is Ok ==> final(self).spec_get(location) == Ok::<Option<PerpDexValue>, StorageError>(Some(value)),
    ;

    /// Deletes a value; a later read finds nothing.
    fn delete(&mut self, location: &PerpDexLocation) -> (r: Result<(), StorageError>)
        requires
            old(self).inv(),
        ensures
            final(self).inv(),
            r is Ok ==> final(self).spec_get(*location) == Ok::<Option<PerpDexValue>, StorageError>(None),
    ;

    /// The ids of a user's orders in one market.
    fn get_user_orders(&self, user: Address, market_id: u64) -> (r: Result<Vec<u64>, StorageError>)
        requires
            self.inv(),
        ensures
            match r {
                Ok(ids) => self.spec_user_orders(user, market_id) == Ok::<Seq<u64>, StorageError>(ids@),
                Err(e) => self.spec_user_orders(user, market_id) == Err::<Seq<u64>, StorageError>(e),
            },
    ;

    /// The ids of a user's orders in all markets.
    fn get_all_user_orders(&self, user: Address) -> (r: Result<Vec<u64>, StorageError>)
        requires
            self.inv(),
        ensures
            match r {
                Ok(ids) => self.spec_all_user_orders(user) == Ok::<Seq<u64>, StorageError>(ids@),
                Err(e) => self.spec_all_user_orders(user) == Err::<Seq<u64>, StorageError>(e),
            },
    ;

    /// The (market id, order id) of each of a user's orders in all markets,
    /// so that each order can be found at its own market.
    fn get_all_user_order_keys(&self, user: Address) -> (r: Result<Vec<(u64, u64)>, StorageError>)
        requires
            self.inv(),
        ensures
            match r {
                Ok(keys) => self.spec_all_user_order_keys(user) == Ok::<Seq<(u64, u64)>, StorageError>(keys@),
                Err(e) => self.spec_all_user_order_keys(user) == Err::<Seq<(u64, u64)>, StorageError>(e),
            },
    ;

    /// The keys agree with the other listings: their ids are the user's
    /// order ids across markets, in order, and each key's id is listed among
    /// the user's orders of the key's market.
    proof fn lemma_order_keys_agree(&self, user: Address)
        requires
            self.inv(),
        ensures
            self.spec_all_user_order_keys(user) matches Ok(keys) ==> {
                &&& self.spec_all_user_orders(user) == Ok::<Seq<u64>, StorageError>(
                    keys.map_values(|k: (u64, u64)| k.1),
                )
                &&& forall|i: int|
                    #![trigger keys[i]]
                    0 <= i < keys.len() ==> (self.spec_user_orders(user, keys[i].0) matches Ok(ids)
                        && ids.contains(keys[i].1))
            },
    ;
}

/// The order index as (user, market) keys with their id sequences.
pub open spec fn order_index_seq(s: Seq<((Address, u64), Vec<u64>)>) -> Seq<((Address, u64), Seq<u64>)> {
    s.map_values(|e: ((Address, u64), Vec<u64>)| (e.0, e.1@))
}

/// The ids of a user's orders, market after market in the order in which the
/// markets were first indexed.
pub open spec fn orders_of_user(s: Seq<((Address, u64), Seq<u64>)>, user: Address) -> Seq<u64>
    decreases s.len(),
{
    if s.len() == 0 {
        Seq::empty()
    } else {
        orders_of_user(s.drop_last(), user) + if s.last().0.0 == user {
            s.last().1
        } else {
            Seq::empty()
        }
    }
}

/// The (market, id) of each of a user's orders, market after market in the
/// order in which the markets were first indexed.
pub open spec fn order_keys_of_user(s: Seq<((Address, u64), Seq<u64>)>, user: Address) -> Seq<(u64, u64)>
    decreases s.len(),
{
    if s.len() == 0 {
        Seq::empty()
    } else {
        order_keys_of_user(s.drop_last(), user) + if s.last().0.0 == user {
            s.last().1.map_values(|id: u64| (s.last().0.1, id))
        } else {
            Seq::empty()
        }
    }
}

/// The ids of a user's order keys are the user's order ids, in order.
pub proof fn lemma_order_keys_ids(s: Seq<((Address, u64), Seq<u64>)>, user: Address)
    ensures
        order_keys_of_user(s, user).map_values(|k: (u64, u64)| k.1) == orders_of_user(s, user),
    decreases s.len(),
{
    if s.len() > 0 {
        lemma_order_keys_ids(s.drop_last(), user);
        let last = s.last();
        let tail = if last.0.0 == user {
            last.1.map_values(|id: u64| (last.0.1, id))
        } else {
            Seq::empty()
        };
        let front = order_keys_of_user(s.drop_last(), user);
        assert((front + tail).map_values(|k: (u64, u64)| k.1) =~= front.map_values(|k: (u64, u64)| k.1)
            + tail.map_values(|k: (u64, u64)| k.1));
        if last.0.0 == user {
            assert(tail.map_values(|k: (u64, u64)| k.1) =~= last.1);
        } else {
            assert(tail.map_values(|k: (u64, u64)| k.1) =~= Seq::<u64>::empty());
            assert(orders_of_user(s.drop_last(), user) + Seq::<u64>::empty() =~= orders_of_user(
                s.drop_last(),
                user,
            ));
        }
    }
}

/// Each of a user's order keys comes from an entry of the user and the key's
/// market that lists the key's id.
pub proof fn lemma_order_keys_listed(s: Seq<((Address, u64), Seq<u64>)>, user: Address, i: int)
    requires
        0 <= i < order_keys_of_user(s, user).len(),
    ensures
        exists|j: int|
            0 <= j < s.len() && s[j].0 == (user, order_keys_of_user(s, user)[i].0) && #[trigger] s[j].1.contains(
                order_keys_of_user(s, user)[i].1,
            ),
    decreases s.len(),
{
    let keys = order_keys_of_user(s, user);
    if s.len() > 0 {
        let front = order_keys_of_user(s.drop_last(), user);
        let last = s.last();
        let tail = if last.0.0 == user {
            last.1.map_values(|id: u64| (last.0.1, id))
        } else {
            Seq::empty()
        };
        assert(keys == front + tail);
        if i < front.len() {
            lemma_order_keys_listed(s.drop_last(), user, i);
            let j = choose|j: int|
                0 <= j < s.drop_last().len() && s.drop_last()[j].0 == (user, front[i].0)
                    && #[trigger] s.drop_last()[j].1.contains(front[i].1);
            assert(s[j] == s.drop_last()[j]);
            assert(keys[i] == front[i]);
            assert(s[j].1.contains(keys[i].1));
        } else {
            let t = i - front.len();
            assert(last.0.0 == user);
            assert(keys[i] == tail[t]);
            assert(tail[t] == (last.0.1, last.1[t]));
            let j = s.len() - 1;
            assert(s[j] == last);
            assert(s[j].1[t] == keys[i].1);
            assert(s[j].1.contains(keys[i].1));
        }
    }
}

/// The ids of `s` other than `id`, in order.
pub open spec fn without_id(s: Seq<u64>, id: u64) -> Seq<u64> {
    s.filter(other_than(id))
}

/// Holds of the ids other than `id`.
pub open spec fn other_than(id: u64) -> spec_fn(u64) -> bool {
    |x: u64| x != id
}

/// The balance map that `with_balances` starts from: later entries win.
pub open spec fn balances_map(s: Seq<(Address, u16, U256)>) -> Map<PerpDexLocation, PerpDexValue>
    decreases s.len(),
{
    if s.len() == 0 {
        Map::empty()
    } else {
        let (user, asset_id, balance) = s.last();
        balances_map(s.drop_last()).insert(
            PerpDexLocation::Balance(user, asset_id),
            PerpDexValue::Balance(balance),
        )
    }
}

/// In-memory storage, for testing and development.
#[derive(Clone, Debug)]
pub struct InMemoryStorage {
    data: Vec<(PerpDexLocation, PerpDexValue)>,
    user_orders: Vec<((Address, u64), Vec<u64>)>,
}

impl InMemoryStorage {
    /// The stored values.
    pub closed spec fn entries(&self) -> Map<PerpDexLocation, PerpDexValue> {
        assoc_view(self.data@)
    }

    /// The order index: the order ids of each (user, market).
    pub closed spec fn order_index(&self) -> Map<(Address, u64), Seq<u64>> {
        assoc_view(order_index_seq(self.user_orders@))
    }

    /// The ids of a user's orders across markets, as `get_all_user_orders`
    /// lists them.
    pub closed spec fn all_orders_of(&self, user: Address) -> Seq<u64> {
        orders_of_user(order_index_seq(self.user_orders@), user)
    }

    /// The (market, id) of each of a user's orders across markets, as
    /// `get_all_user_order_keys` lists them.
    pub closed spec fn all_order_keys_of(&self, user: Address) -> Seq<(u64, u64)> {
        order_keys_of_user(order_index_seq(self.user_orders@), user)
    }

    /// An empty storage.
    pub fn new() -> (r: InMemoryStorage)
        ensures
            r.inv(),
            r.entries() == Map::<PerpDexLocation, PerpDexValue>::empty(),
            r.order_index() == Map::<(Address, u64), Seq<u64>>::empty(),
    {
        let r = InMemoryStorage { data: Vec::new(), user_orders: Vec::new() };
        assert(r.entries() =~= Map::<PerpDexLocation, PerpDexValue>::empty());
        assert(order_index_seq(r.user_orders@) =~= Seq::empty());
        assert(r.order_index() =~= Map::<(Address, u64), Seq<u64>>::empty());
        r
    }

    /// A storage holding the given (user, asset, balance) entries; a later
    /// entry for the same user and asset wins.
    pub fn with_balances(balances: Vec<(Address, u16, U256)>) -> (r: InMemoryStorage)
        ensures
            r.inv(),
            r.entries() == balances_map(balances@),
            r.order_index() == Map::<(Address, u64), Seq<u64>>::empty(),
    {
        let mut storage = InMemoryStorage::new();
        let mut i: usize = 0;
        while i < balances.len()
            invariant
                i <= balances@.len(),
                storage.inv(),
                storage.entries() == balances_map(balances@.take(i as int)),
                storage.order_index() == Map::<(Address, u64), Seq<u64>>::empty(),
            decreases balances@.len() - i,
        {
            let (user, asset_id, balance) = balances[i];
            storage.insert_entry(PerpDexLocation::Balance(user, asset_id), PerpDexValue::Balance(balance));
            assert(balances@.take(i + 1).drop_last() =~= balances@.take(i as int));
            i = i + 1;
        }
        assert(balances@.take(balances@.len() as int) =~= balances@);
        storage
    }

    /// The index of the entry for `location`, if any.
    fn find_entry(&self, location: &PerpDexLocation) -> (r: Option<usize>)
        ensures
            match r {
                Some(i) => i < self.data@.len() && self.data@[i as int].0 == *location,
                None => !has_key(self.data@, *location),
            },
    {
        let mut i: usize = 0;
        while i < self.data.len()
            invariant
                i <= self.data@.len(),
                forall|j: int| 0 <= j < i ==> self.data@[j].0 != *location,
            decreases self.data@.len() - i,
        {
            if self.data[i].0 == *location {
                return Some(i);
            }
            i = i + 1;
        }
        None
    }

    /// The index of the order list of `key`, if any.
    fn find_orders(&self, key: (Address, u64)) -> (r: Option<usize>)
        ensures
            match r {
                Some(i) => i < self.user_orders@.len() && self.user_orders@[i as int].0 == key,
                None => !has_key(order_index_seq(self.user_orders@), key),
            },
    {
        let mut i: usize = 0;
        while i < self.user_orders.len()
            invariant
                i <= self.user_orders@.len(),
                forall|j: int| 0 <= j < i ==> self.user_orders@[j].0 != key,
            decreases self.user_orders@.len() - i,
        {
            let k = self.user_orders[i].0;
            if k.0 == key.0 && k.1 == key.1 {
                return Some(i);
            }
            i = i + 1;
        }
        None
    }

    /// Stores `value` at `location`, leaving the order index alone.
    fn insert_entry(&mut self, location: PerpDexLocation, value: PerpDexValue)
        requires
            old(self).inv(),
        ensures
            final(self).inv(),
            final(self).entries() == old(self).entries().insert(location, value),
            final(self).user_orders == old(self).user_orders,
    {
        match self.find_entry(&location) {
            Some(i) => {
                proof {
                    lemma_assoc_update(self.data@, i as int, value);
                }
                self.data.set(i, (location, value));
                assert(self.data@ =~= old(self).data@.update(i as int, (location, value)));
            },
            None => {
                proof {
                    lemma_assoc_push(self.data@, location, value);
                }
                self.data.push((location, value));
            },
        }
    }

    /// Copies a list of ids.
    fn copy_ids(ids: &Vec<u64>) -> (r: Vec<u64>)
        ensures
            r@ == ids@,
    {
        let mut out: Vec<u64> = Vec::new();
        let mut i: usize = 0;
        while i < ids.len()
            invariant
                i <= ids@.len(),
                out@ == ids@.take(i as int),
            decreases ids@.len() - i,
        {
            out.push(ids[i]);
            assert(ids@.take(i + 1) =~= ids@.take(i as int).push(ids@[i as int]));
            i = i + 1;
        }
        assert(ids@.take(ids@.len() as int) =~= ids@);
        out
    }

    /// Records `order_id` in the index of (user, market).
    fn add_order_index(&mut self, user: Address, market_id: u64, order_id: u64)
        requires
            old(self).inv(),
        ensures
            final(self).inv(),
            final(self).data == old(self).data,
            final(self).order_index() == old(self).order_index().insert(
                (user, market_id),
                if old(self).order_index().contains_key((user, market_id)) {
                    old(self).order_index()[(user, market_id)].push(order_id)
                } else {
                    seq![order_id]
                },
            ),
    {
        let key = (user, market_id);
        let ghost s = order_index_seq(self.user_orders@);
        match self.find_orders(key) {
            Some(i) => {
                let mut ids = Self::copy_ids(&self.user_orders[i].1);
                ids.push(order_id);
                let ghost new_ids = ids@;
                proof {
                    assert(s[i as int].0 == key);
                    lemma_assoc_at(s, i as int);
                    lemma_assoc_update(s, i as int, new_ids);
                }
                self.user_orders.set(i, (key, ids));
                assert(order_index_seq(self.user_orders@) =~= s.update(i as int, (key, new_ids)));
            },
            None => {
                proof {
                    lemma_assoc_push(s, key, seq![order_id]);
                }
                let mut ids: Vec<u64> = Vec::new();
                ids.push(order_id);
                self.user_orders.push((key, ids));
                assert(order_index_seq(self.user_orders@) =~= s.push((key, seq![order_id])));
            },
        }
    }

    /// Drops `order_id` from the index of (user, market), where that key is
    /// indexed.
    fn remove_order_index(&mut self, user: Address, market_id: u64, order_id: u64)
        requires
            old(self).inv(),
        ensures
            final(self).inv(),
            final(self).data == old(self).data,
            final(self).order_index() == if old(self).order_index().contains_key((user, market_id)) {
                old(self).order_index().insert(
                    (user, market_id),
                    without_id(old(self).order_index()[(user, market_id)], order_id),
                )
            } else {
                old(self).order_index()
            },
    {
        let key = (user, market_id);
        let ghost s = order_index_seq(self.user_orders@);
        match self.find_orders(key) {
            Some(i) => {
                let mut kept: Vec<u64> = Vec::new();
                let mut j: usize = 0;
                let n = self.user_orders[i].1.len();
                while j < n
                    invariant
                        i < self.user_orders@.len(),
                        n == self.user_orders@[i as int].1@.len(),
                        j <= n,
                        kept@ == without_id(self.user_orders@[i as int].1@.take(j as int), order_id),
                    decreases n - j,
                {
                    let x = self.user_orders[i].1[j];
                    proof {
                        let t = self.user_orders@[i as int].1@;
                        assert(t.take(j + 1) =~= t.take(j as int).push(x));
                        t.take(j as int).lemma_filter_push(x, other_than(order_id));
                    }
                    if x != order_id {
                        kept.push(x);
                    }
                    j = j + 1;
                }
                let ghost new_ids = kept@;
                proof {
                    let t = self.user_orders@[i as int].1@;
                    assert(t.take(n as int) =~= t);
                    assert(s[i as int].0 == key);
                    lemma_assoc_at(s, i as int);
                    lemma_assoc_update(s, i as int, new_ids);
                }
                self.user_orders.set(i, (key, kept));
                assert(order_index_seq(self.user_orders@) =~= s.update(i as int, (key, new_ids)));
            },
            None => {
                proof {
                    lemma_assoc_absent(s, key);
                }
            },
        }
    }
}

impl PerpDexStorage for InMemoryStorage {
    /// Locations and (user, market) keys each occur once.
    closed spec fn inv(&self) -> bool {
        &&& keys_unique(self.data@)
        &&& keys_unique(order_index_seq(self.user_orders@))
    }

    open spec fn spec_get(&self, location: PerpDexLocation) -> Result<Option<PerpDexValue>, StorageError> {
        Ok(
            if self.entries().contains_key(location) {
                Some(self.entries()[location])
            } else {
                None
            },
        )
    }

    open spec fn spec_user_orders(&self, user: Address, market_id: u64) -> Result<Seq<u64>, StorageError> {
        Ok(
            if self.order_index().contains_key((user, market_id)) {
                self.order_index()[(user, market_id)]
            } else {
                Seq::empty()
            },
        )
    }

    open spec fn spec_all_user_orders(&self, user: Address) -> Result<Seq<u64>, StorageError> {
        Ok(self.all_orders_of(user))
    }

    open spec fn spec_all_user_order_keys(&self, user: Address) -> Result<Seq<(u64, u64)>, StorageError> {
        Ok(self.all_order_keys_of(user))
    }

    fn get(&self, location: &PerpDexLocation) -> (r: Result<Option<PerpDexValue>, StorageError>) {
        match self.find_entry(location) {
            Some(i) => {
                proof {
                    lemma_assoc_at(self.data@, i as int);
                }
                Ok(Some(self.data[i].1))
            },
            None => Ok(None),
        }
    }

    /// Writes a value; an order that is not `Deleted` is also indexed under
    /// its user and market.
    fn set(&mut self, location: PerpDexLocation, value: PerpDexValue) -> (r: Result<(), StorageError>)
        ensures
            r is Ok,
            final(self).entries() == old(self).entries().insert(location, value),
            final(self).order_index() == match location {
                PerpDexLocation::Order(user, market_id, order_id) => if value is Deleted {
                    old(self).order_index()
                } else {
                    old(self).order_index().insert(
                        (user, market_id),
                        if old(self).order_index().contains_key((user, market_id)) {
                            old(self).order_index()[(user, market_id)].push(order_id)
                        } else {
                            seq![order_id]
                        },
                    )
                },
                _ => old(self).order_index(),
            },
            match location {
                PerpDexLocation::Order(user, market_id, order_id) => !(value is Deleted) ==> (final(self).spec_user_orders(user, market_id) matches Ok(ids) && ids.contains(order_id)),
                _ => true,
            },
    {
        if let PerpDexLocation::Order(user, market_id, order_id) = location {
            if !value.is_deleted() {
                self.add_order_index(user, market_id, order_id);
                proof {
                    let key = (user, market_id);
                    let ids = self.order_index()[key];
                    assert(ids[ids.len() - 1] == order_id);
                }
            }
        }
        self.insert_entry(location, value);
        Ok(())
    }

    /// Deletes a value; an order is also dropped from the index of its user
    /// and market.
    fn delete(&mut self, location: &PerpDexLocation) -> (r: Result<(), StorageError>)
        ensures
            r is Ok,
            final(self).entries() == old(self).entries().remove(*location),
            final(self).order_index() == match *location {
                PerpDexLocation::Order(user, market_id, order_id) => if old(self).order_index().contains_key(
                    (user, market_id),
                ) {
                    old(self).order_index().insert(
                        (user, market_id),
                        without_id(old(self).order_index()[(user, market_id)], order_id),
                    )
                } else {
                    old(self).order_index()
                },
                _ => old(self).order_index(),
            },
            match *location {
                PerpDexLocation::Order(user, market_id, order_id) => (final(self).spec_user_orders(user, market_id) matches Ok(ids) && !ids.contains(order_id)),
                _ => true,
            },
    {
        if let PerpDexLocation::Order(user, market_id, order_id) = *location {
            self.remove_order_index(user, market_id, order_id);
            proof {
                let key = (user, market_id);
                if old(self).order_index().contains_key(key) {
                    let ids = without_id(old(self).order_index()[key], order_id);
                    if ids.contains(order_id) {
                        let k = choose|k: int| 0 <= k < ids.len() && ids[k] == order_id;
                        old(self).order_index()[key].lemma_filter_pred(other_than(order_id), k);
                    }
                }
            }
        }
        match self.find_entry(location) {
            Some(i) => {
                proof {
                    lemma_assoc_remove(self.data@, i as int);
                }
                self.data.remove(i);
            },
            None => {
                proof {
                    lemma_assoc_absent(self.data@, *location);
                    assert(self.entries() =~= self.entries().remove(*location));
                }
            },
        }
        Ok(())
    }

    fn get_user_orders(&self, user: Address, market_id: u64) -> (r: Result<Vec<u64>, StorageError>) {
        let ghost s = order_index_seq(self.user_orders@);
        match self.find_orders((user, market_id)) {
            Some(i) => {
                proof {
                    assert(s[i as int].0 == (user, market_id));
                    lemma_assoc_at(s, i as int);
                }
                Ok(Self::copy_ids(&self.user_orders[i].1))
            },
            None => {
                proof {
                    lemma_assoc_absent(s, (user, market_id));
                }
                Ok(Vec::new())
            },
        }
    }

    fn get_all_user_orders(&self, user: Address) -> (r: Result<Vec<u64>, StorageError>) {
        let ghost s = order_index_seq(self.user_orders@);
        let mut all: Vec<u64> = Vec::new();
        let mut i: usize = 0;
        while i < self.user_orders.len()
            invariant
                i <= self.user_orders@.len(),
                s == order_index_seq(self.user_orders@),
                all@ == orders_of_user(s.take(i as int), user),
            decreases self.user_orders@.len() - i,
        {
            proof {
                assert(s.take(i + 1).drop_last() =~= s.take(i as int));
            }
            if self.user_orders[i].0.0 == user {
                let ids = Self::copy_ids(&self.user_orders[i].1);
                let mut j: usize = 0;
                let ghost before = all@;
                while j < ids.len()
                    invariant
                        j <= ids@.len(),
                        all@ == before + ids@.take(j as int),
                    decreases ids@.len() - j,
                {
                    all.push(ids[j]);
                    assert(ids@.take(j + 1) =~= ids@.take(j as int).push(ids@[j as int]));
                    j = j + 1;
                }
                assert(ids@.take(ids@.len() as int) =~= ids@);
            } else {
                assert(all@ =~= all@ + Seq::<u64>::empty());
            }
            i = i + 1;
        }
        assert(s.take(s.len() as int) =~= s);
        Ok(all)
    }

    /// The keys' ids are what `get_all_user_orders` lists.
    proof fn lemma_order_keys_agree(&self, user: Address) {
        let s = order_index_seq(self.user_orders@);
        let keys = self.all_order_keys_of(user);
        lemma_order_keys_ids(s, user);
        assert forall|i: int| #![trigger keys[i]] 0 <= i < keys.len() implies (self.spec_user_orders(
            user,
            keys[i].0,
        ) matches Ok(ids) && ids.contains(keys[i].1)) by {
            lemma_order_keys_listed(s, user, i);
            let j = choose|j: int|
                0 <= j < s.len() && s[j].0 == (user, keys[i].0) && #[trigger] s[j].1.contains(keys[i].1);
            lemma_assoc_at(s, j);
        }
    }

    fn get_all_user_order_keys(&self, user: Address) -> (r: Result<Vec<(u64, u64)>, StorageError>)
        ensures
            r matches Ok(keys) && keys@.map_values(|k: (u64, u64)| k.1) == self.all_orders_of(user),
    {
        let ghost s = order_index_seq(self.user_orders@);
        proof {
            lemma_order_keys_ids(s, user);
        }
        let mut all: Vec<(u64, u64)> = Vec::new();
        let mut i: usize = 0;
        while i < self.user_orders.len()
            invariant
                i <= self.user_orders@.len(),
                s == order_index_seq(self.user_orders@),
                all@ == order_keys_of_user(s.take(i as int), user),
            decreases self.user_orders@.len() - i,
        {
            proof {
                assert(s.take(i + 1).drop_last() =~= s.take(i as int));
            }
            let key = self.user_orders[i].0;
            if key.0 == user {
                let market_id = key.1;
                let n = self.user_orders[i].1.len();
                let mut j: usize = 0;
                let ghost before = all@;
                let ghost ids = self.user_orders@[i as int].1@;
                while j < n
                    invariant
                        i < self.user_orders@.len(),
                        ids == self.user_orders@[i as int].1@,
                        n == ids.len(),
                        j <= n,
                        all@ == before + ids.take(j as int).map_values(|id: u64| (market_id, id)),
                    decreases n - j,
                {
                    let id = self.user_orders[i].1[j];
                    all.push((market_id, id));
                    assert(ids.take(j + 1).map_values(|id: u64| (market_id, id)) =~= ids.take(
                        j as int,
                    ).map_values(|id: u64| (market_id, id)).push((market_id, id)));
                    j = j + 1;
                }
                assert(ids.take(n as int) =~= ids);
                assert(s.take(i + 1).last() == s[i as int]);
            } else {
                assert(all@ =~= all@ + Seq::<(u64, u64)>::empty());
            }
            i = i + 1;
        }
        assert(s.take(s.len() as int) =~= s);
        Ok(all)
    }
}

} // verus!
