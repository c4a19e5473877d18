//! The instance registry: an address-keyed cache of client-bound contract
//! instances, generic over the instance type. At most one entry exists per
//! address; an insert for a present address replaces the entry (last writer
//! wins), and `register` only constructs when the address is absent.

use vstd::prelude::*;

use crate::network::{Address, Chain};

verus! {

/// The one piece of specification state a cached instance carries: the
/// address it is bound to.
pub trait AddressBound {
    /// The address this instance is bound to.
    spec fn bound_address(&self) -> Address;
}

/// The capability a contract-binding type offers this layer: construction
/// from an address and a client handle, an address accessor, and cheap
/// duplication that shares the underlying handle. Binding types are generated
/// against a concrete contract interface by users of this layer, so no
/// production implementor lives here; `MockBinding` is the in-memory one.
pub trait ContractBinding<M>: Sized + AddressBound {
    /// Bind an address and a client handle into a fresh instance.
    fn new(address: Address, client: M) -> (r: Self)
        ensures
            r.bound_address() == address;

    /// The bound address.
    fn address(&self) -> (r: Address)
        ensures
            r == self.bound_address();

    /// A duplicate of this instance, bound to the same address and sharing
    /// the same underlying client handle.
    fn duplicate(&self) -> (r: Self)
        ensures
            r.bound_address() == self.bound_address();
}

/// An in-memory contract binding: it records the bound address and drops the
/// client handle. The label tells hand-built instances apart; binding
/// construction leaves it zero and duplication keeps it.
#[derive(Clone, Copy, Debug, PartialEq, Eq, Structural)]
pub struct MockBinding {
    pub address: Address,
    pub label: u64,
}

impl AddressBound for MockBinding {
    open spec fn bound_address(&self) -> Address {
        self.address
    }
}

impl<M> ContractBinding<M> for MockBinding {
    fn new(address: Address, client: M) -> (r: Self) {
        MockBinding { address, label: 0 }
    }

    fn address(&self) -> (r: Address) {
        self.address
    }

    fn duplicate(&self) -> (r: Self) {
        MockBinding { address: self.address, label: self.label }
    }
}

/// No two entries share an address.
pub open spec fn unique_keys<C>(s: Seq<(Address, C)>) -> bool {
    forall|i: int, j: int| 0 <= i < j < s.len() ==> s[i].0 != s[j].0
}

/// The mapping a sequence of address/instance pairs denotes; a later pair for
/// the same address wins.
pub open spec fn map_of<C>(s: Seq<(Address, C)>) -> Map<Address, C>
    decreases s.len(),
{
    if s.len() == 0 {
        Map::empty()
    } else {
        map_of(s.drop_last()).insert(s.last().0, s.last().1)
    }
}

proof fn lemma_map_of_contains<C>(s: Seq<(Address, C)>, a: Address)
    ensures
        map_of(s).contains_key(a) <==> exists|i: int| 0 <= i < s.len() && s[i].0 == a,
    decreases s.len(),
{
    if s.len() == 0 {
    } else {
        lemma_map_of_contains(s.drop_last(), a);
        if s.last().0 == a {
            assert(s[s.len() - 1].0 == a);
        } else {
            if exists|i: int| 0 <= i < s.len() && s[i].0 == a {
                let i = choose|i: int| 0 <= i < s.len() && s[i].0 == a;
                assert(s.drop_last()[i] == s[i]);
            }
            if exists|i: int| 0 <= i < s.drop_last().len() && s.drop_last()[i].0 == a {
                let i = choose|i: int| 0 <= i < s.drop_last().len() && s.drop_last()[i].0 == a;
                assert(s[i] == s.drop_last()[i]);
            }
        }
    }
}

proof fn lemma_map_of_len<C>(s: Seq<(Address, C)>)
    requires
        unique_keys(s),
    ensures
        map_of(s).dom().finite(),
        map_of(s).dom().len() == s.len(),
    decreases s.len(),
{
    if s.len() == 0 {
        assert(map_of(s).dom() =~= Set::<Address>::empty());
    } else {
        assert(unique_keys(s.drop_last()));
        lemma_map_of_len(s.drop_last());
        lemma_map_of_contains(s.drop_last(), s.last().0);
        assert(forall|i: int| 0 <= i < s.drop_last().len() ==> s.drop_last()[i] == s[i]);
        assert(!map_of(s.drop_last()).contains_key(s.last().0));
        assert(map_of(s).dom() =~= map_of(s.drop_last()).dom().insert(s.last().0));
    }
}

proof fn lemma_map_of_at<C>(s: Seq<(Address, C)>, i: int)
    requires
        unique_keys(s),
        0 <= i < s.len(),
    ensures
        map_of(s).contains_key(s[i].0),
        map_of(s)[s[i].0] == s[i].1,
    decreases s.len(),
{
    if i == s.len() - 1 {
    } else {
        assert(unique_keys(s.drop_last()));
        assert(s.drop_last()[i] == s[i]);
        lemma_map_of_at(s.drop_last(), i);
        assert(s.last().0 != s[i].0);
    }
}

proof fn lemma_map_of_update<C>(s: Seq<(Address, C)>, i: int, c: C)
    requires
        unique_keys(s),
        0 <= i < s.len(),
    ensures
        map_of(s.update(i, (s[i].0, c))) == map_of(s).insert(s[i].0, c),
    decreases s.len(),
{
    let t = s.update(i, (s[i].0, c));
    if i == s.len() - 1 {
        assert(t.drop_last() =~= s.drop_last());
        assert(t.last() == (s[i].0, c));
        assert(map_of(t) == map_of(s.drop_last()).insert(s[i].0, c));
        assert(map_of(s.drop_last()).insert(s.last().0, s.last().1).insert(s[i].0, c)
            =~= map_of(s.drop_last()).insert(s[i].0, c));
    } else {
        assert(unique_keys(s.drop_last()));
        assert(s.drop_last()[i] == s[i]);
        lemma_map_of_update(s.drop_last(), i, c);
        assert(t.drop_last() =~= s.drop_last().update(i, (s[i].0, c)));
        assert(t.last() == s.last());
        assert(map_of(t) == map_of(s.drop_last()).insert(s[i].0, c).insert(s.last().0, s.last().1));
        assert(s.last().0 != s[i].0);
        assert(map_of(s.drop_last()).insert(s[i].0, c).insert(s.last().0, s.last().1)
            =~= map_of(s.drop_last()).insert(s.last().0, s.last().1).insert(s[i].0, c));
    }
}

/// How one `register` call changes the cached mapping: afterwards the address
/// is present; a present address leaves the mapping untouched, and an absent
/// one gains exactly one entry, a fresh instance bound to that address.
pub open spec fn register_transition<C: AddressBound>(
    m0: Map<Address, C>,
    m1: Map<Address, C>,
    address: Address,
) -> bool {
    &&& m1.dom() == m0.dom().insert(address)
    &&& (m0.contains_key(address) ==> m1 == m0)
    &&& (!m0.contains_key(address) ==> m1 == m0.insert(address, m1[address])
        && m1[address].bound_address() == address)
}

/// Registering the same address twice is idempotent (single-threaded): the
/// second call finds the entry the first call put there and leaves the
/// mapping exactly as it was, so both calls hand back an instance with the
/// same underlying address binding; and a first registration of a fresh
/// address leaves an instance bound to that address.
pub proof fn lemma_register_idempotent<C: AddressBound>(
    m0: Map<Address, C>,
    m1: Map<Address, C>,
    m2: Map<Address, C>,
    address: Address,
)
    requires
        register_transition(m0, m1, address),
        register_transition(m1, m2, address),
    ensures
        m2 == m1,
        !m0.contains_key(address) ==> m1[address].bound_address() == address,
{
    assert(m1.contains_key(address));
}

/// Registrations of two different addresses are isolated: the second one
/// leaves the first entry untouched, and both entries are retrievable
/// afterwards.
pub proof fn lemma_register_isolated<C: AddressBound>(
    m0: Map<Address, C>,
    m1: Map<Address, C>,
    m2: Map<Address, C>,
    a1: Address,
    a2: Address,
)
    requires
        register_transition(m0, m1, a1),
        register_transition(m1, m2, a2),
        a1 != a2,
    ensures
        m2.contains_key(a1),
        m2.contains_key(a2),
        m2[a1] == m1[a1],
        !m0.contains_key(a1) ==> m2[a1].bound_address() == a1,
        !m1.contains_key(a2) ==> m2[a2].bound_address() == a2,
{
    assert(m1.contains_key(a1));
    assert(m2.dom().contains(a1));
}

/// The race two callers registering one never-before-seen address can reach:
/// both observe the address absent, both construct an instance bound to it,
/// and both insert. The second insert replaces the first — last writer wins —
/// so exactly one entry survives; whichever instance a caller then reads back
/// is bound to that address, and every other entry is untouched. At-most-one-
/// instance-per-address is therefore kept, while exactly-one-construction is
/// not guaranteed under such a race.
pub proof fn lemma_racing_inserts_leave_one_entry<C: AddressBound>(
    m0: Map<Address, C>,
    first: C,
    second: C,
    address: Address,
)
    requires
        !m0.contains_key(address),
        first.bound_address() == address,
        second.bound_address() == address,
    ensures
        m0.insert(address, first).insert(address, second) == m0.insert(address, second),
        m0.insert(address, second)[address] == second,
        m0.insert(address, second).dom() == m0.dom().insert(address),
        forall|a: Address| a != address && m0.contains_key(a)
            ==> m0.insert(address, first).insert(address, second)[a] == m0[a],
        m0.insert(address, first)[address].bound_address() == address,
        m0.insert(address, second)[address].bound_address() == address,
{
    assert(m0.insert(address, first).insert(address, second) =~= m0.insert(address, second));
}

/// The address-keyed cache of constructed contract instances for one contract
/// type on one chain and endpoint. The URL and chain are carried for
/// reconstruction by callers; the entries are the shared mutable state.
#[derive(Debug)]
pub struct AbiRegistry<C> {
    url: Option<String>,
    chain: Option<Chain>,
    entries: Vec<(Address, C)>,
}

impl<C> View for AbiRegistry<C> {
    type V = Map<Address, C>;

    closed spec fn view(&self) -> Map<Address, C> {
        map_of(self.entries@)
    }
}

impl<C> AbiRegistry<C> {
    /// The registry's internal invariant: one entry per address.
    pub closed spec fn wf(&self) -> bool {
        unique_keys(self.entries@)
    }

    /// The endpoint URL this registry was created for, if any.
    pub closed spec fn spec_url(&self) -> Option<String> {
        self.url
    }

    /// The chain descriptor this registry was created for, if any.
    pub closed spec fn spec_chain(&self) -> Option<Chain> {
        self.chain
    }

    pub fn url(&self) -> (r: &Option<String>)
        ensures
            *r == self.spec_url(),
    {
        &self.url
    }

    pub fn chain(&self) -> (r: Option<Chain>)
        ensures
            r == self.spec_chain(),
    {
        self.chain
    }

    pub fn new(url: String, chain: Chain) -> (r: Self)
        ensures
            r.wf(),
            r@ == Map::<Address, C>::empty(),
            r.spec_url() == Some(url),
            r.spec_chain() == Some(chain),
    {
        Self { url: Some(url), chain: Some(chain), entries: Vec::new() }
    }

    /// A registry with no URL and no chain, for instances over the in-memory
    /// mock transport.
    pub fn mock() -> (r: Self)
        ensures
            r.wf(),
            r@ == Map::<Address, C>::empty(),
            r.spec_url() is None,
            r.spec_chain() is None,
    {
        Self { url: None, chain: None, entries: Vec::new() }
    }

    /// How many addresses are cached.
    pub fn len(&self) -> (r: usize)
        requires
            self.wf(),
        ensures
            r == self@.dom().len(),
    {
        proof {
            lemma_map_of_len(self.entries@);
        }
        self.entries.len()
    }

    /// The index holding `address`, if any.
    fn find_index(&self, address: Address) -> (r: Option<usize>)
        ensures
            match r {
                Some(i) => i < self.entries@.len() && self.entries@[i as int].0 == address,
                None => forall|j: int| 0 <= j < self.entries@.len() ==> self.entries@[j].0 != address,
            },
    {
        let n = self.entries.len();
        let mut i: usize = 0;
        while i < n
            invariant
                n == self.entries@.len(),
                i <= n,
                forall|j: int| 0 <= j < i ==> self.entries@[j].0 != address,
            decreases n - i,
        {
            if self.entries[i].0 == address {
                return Some(i);
            }
            i = i + 1;
        }
        None
    }

    /// Whether an instance is cached for `address`. Read-only.
    pub fn entry_exists(&self, address: Address) -> (r: bool)
        ensures
            r == self@.contains_key(address),
    {
        proof {
            lemma_map_of_contains(self.entries@, address);
        }
        match self.find_index(address) {
            Some(_) => true,
            None => false,
        }
    }

    /// Cache `contract` under `address`, replacing any present entry: insert
    /// semantics are unconditional at this layer, and `register` supplies the
    /// get-or-create discipline above it.
    pub fn add_entry(&mut self, address: Address, contract: C)
        requires
            old(self).wf(),
        ensures
            final(self).wf(),
            final(self)@ == old(self)@.insert(address, contract),
            final(self).spec_url() == old(self).spec_url(),
            final(self).spec_chain() == old(self).spec_chain(),
    {
        match self.find_index(address) {
            Some(i) => {
                proof {
                    lemma_map_of_update(self.entries@, i as int, contract);
                }
                self.entries[i] = (address, contract);
                proof {
                    assert(self.entries@ =~= old(self).entries@.update(i as int, (address, contract)));
                }
            },
            None => {
                self.entries.push((address, contract));
                proof {
                    let s = old(self).entries@;
                    assert(self.entries@.drop_last() =~= s);
                    assert(map_of(self.entries@)
                        == map_of(self.entries@.drop_last()).insert(address, contract));
                }
            },
        }
    }

    /// Get or create: return the cached instance for `address`, constructing
    /// and inserting one first when none is cached. The existence check and
    /// the insert are two separate steps by design; see the race note on
    /// `lemma_racing_inserts_leave_one_entry`.
    pub fn register<M>(&mut self, provider: M, address: Address) -> (r: C) where C: ContractBinding<M>
        requires
            old(self).wf(),
        ensures
            final(self).wf(),
            final(self).spec_url() == old(self).spec_url(),
            final(self).spec_chain() == old(self).spec_chain(),
            register_transition(old(self)@, final(self)@, address),
            r.bound_address() == final(self)@[address].bound_address(),
    {
        if !self.entry_exists(address) {
            let instance = C::new(address, provider);
            self.add_entry(address, instance);
        }
        proof {
            assert(old(self)@.contains_key(address) ==> self@ =~= old(self)@);
            assert(self@.dom() =~= old(self)@.dom().insert(address));
            assert(self@ =~= old(self)@.insert(address, self@[address]));
            lemma_map_of_contains(self.entries@, address);
        }
        match self.find_index(address) {
            Some(i) => {
                proof {
                    lemma_map_of_at(self.entries@, i as int);
                }
                self.entries[i].1.duplicate()
            },
            None => vstd::pervasive::unreached(),
        }
    }
}

} // verus!
