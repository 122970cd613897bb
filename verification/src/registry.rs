//! The pair registry: pair creation and lookup, and fee-recipient
//! governance.  The pool engine consumes it only to learn the current fee
//! recipient; everything else is registry bookkeeping at the boundary.

use vstd::prelude::*;
use crate::pair::Error;

verus! {

/// Notification that a new pair was registered.
pub struct PairCreated {
    pub token0: Option<u128>,
    pub token1: Option<u128>,
    pub pair: Option<u128>,
    pub pair_index: u32,
}

/// Whether a registry entry `(token_a, token_b, pair)` serves the token
/// pair `(a, b)`, in either token order.
pub open spec fn entry_matches(e: (u128, u128, u128), a: u128, b: u128) -> bool {
    (e.0 == a && e.1 == b) || (e.0 == b && e.1 == a)
}

/// The pair registered for `(a, b)` among `entries[i..]`, scanning from the
/// oldest entry.
pub open spec fn lookup_from(entries: Seq<(u128, u128, u128)>, i: int, a: u128, b: u128) -> Option<
    u128,
>
    decreases entries.len() - i,
{
    if i < 0 || i >= entries.len() {
        None
    } else if entry_matches(entries[i], a, b) {
        Some(entries[i].2)
    } else {
        lookup_from(entries, i + 1, a, b)
    }
}

/// The pair registered for `(a, b)`, in either token order.
pub open spec fn lookup_pair(entries: Seq<(u128, u128, u128)>, a: u128, b: u128) -> Option<u128> {
    lookup_from(entries, 0, a, b)
}

/// Looking a pair up is indifferent to the token order.
pub proof fn lemma_lookup_symmetric(entries: Seq<(u128, u128, u128)>, i: int, a: u128, b: u128)
    ensures
        lookup_from(entries, i, a, b) == lookup_from(entries, i, b, a),
    decreases entries.len() - i,
{
    if 0 <= i < entries.len() {
        lemma_lookup_symmetric(entries, i + 1, a, b);
    }
}

/// Appending an entry leaves earlier lookups intact and serves exactly the
/// new entry's pair where nothing was registered before.
pub proof fn lemma_lookup_push(
    entries: Seq<(u128, u128, u128)>,
    e: (u128, u128, u128),
    i: int,
    a: u128,
    b: u128,
)
    requires
        0 <= i <= entries.len(),
    ensures
        lookup_from(entries.push(e), i, a, b) == if lookup_from(entries, i, a, b).is_some() {
            lookup_from(entries, i, a, b)
        } else if entry_matches(e, a, b) {
            Some(e.2)
        } else {
            None
        },
    decreases entries.len() - i,
{
    if i < entries.len() {
        assert(entries.push(e)[i] == entries[i]);
        lemma_lookup_push(entries, e, i + 1, a, b);
    } else {
        assert(entries.push(e)[i] == e);
        assert(lookup_from(entries, i, a, b) is None);
        assert(lookup_from(entries.push(e), i + 1, a, b) is None);
    }
}

/// The outcome `create_pair` owes for the given arguments against the
/// given registry entries.
pub open spec fn create_pair_decision(
    entries: Seq<(u128, u128, u128)>,
    token_a: u128,
    token_b: u128,
    pair: u128,
) -> Result<u128, Error> {
    if token_a == token_b {
        Err(Error::IdenticalAddresses)
    } else if token_a == 0 || token_b == 0 {
        Err(Error::ZeroAddress)
    } else if lookup_pair(entries, token_a, token_b).is_some() {
        Err(Error::PairExists)
    } else {
        Ok(pair)
    }
}

/// The registry record: fee governance and the pair book.
pub struct UniswapCore {
    /// The protocol-fee recipient; `0` while fee collection is disabled.
    pub fee_to: u128,
    /// The only identity allowed to change the fee recipient.
    pub fee_to_setter: u128,
    /// Registered pairs as `(token_a, token_b, pair)`, served in either
    /// token order.
    pub get_pairs: Vec<(u128, u128, u128)>,
    /// Every registered pair, in creation order.
    pub all_pairs: Vec<u128>,
    /// Registration notifications, oldest first.
    pub events: Vec<PairCreated>,
}

impl UniswapCore {
    /// Well-formedness: the pair list is countable by the 32-bit index the
    /// notifications carry.
    pub open spec fn wf(&self) -> bool {
        self.all_pairs@.len() <= u32::MAX
    }

    /// Whether protocol-fee collection is currently enabled.
    pub open spec fn fee_enabled(&self) -> bool {
        self.fee_to != 0
    }

    /// A fresh registry with fee collection disabled and an empty pair
    /// book, governed by `fee_to_setter`.
    pub fn new(fee_to_setter: u128) -> (r: UniswapCore)
        ensures
            r.fee_to == 0,
            r.fee_to_setter == fee_to_setter,
            r.get_pairs@ == Seq::<(u128, u128, u128)>::empty(),
            r.all_pairs@ == Seq::<u128>::empty(),
            r.events@ == Seq::<PairCreated>::empty(),
            r.wf(),
    {
        UniswapCore {
            fee_to: 0,
            fee_to_setter,
            get_pairs: Vec::new(),
            all_pairs: Vec::new(),
            events: Vec::new(),
        }
    }

    /// The current fee recipient; `0` while fee collection is disabled.
    pub fn get_fee_to(&self) -> (r: u128)
        ensures
            r == self.fee_to,
    {
        self.fee_to
    }

    /// The null identity.
    pub fn zero_address() -> (r: u128)
        ensures
            r == 0,
    {
        0
    }

    /// How many pairs are registered.
    pub fn all_pairs_length(&self) -> (r: u32)
        requires
            self.wf(),
        ensures
            r == self.all_pairs@.len(),
    {
        self.all_pairs.len() as u32
    }

    /// The registration notifications emitted so far, oldest first.
    pub fn events(&self) -> (r: &Vec<PairCreated>)
        ensures
            r@ == self.events@,
    {
        &self.events
    }

    /// The pair registered for `(token_a, token_b)`, in either token order.
    pub fn get_pair(&self, token_a: u128, token_b: u128) -> (r: Option<u128>)
        ensures
            r == lookup_pair(self.get_pairs@, token_a, token_b),
    {
        let n = self.get_pairs.len();
        let mut i: usize = 0;
        while i < n
            invariant
                0 <= i <= n,
                n == self.get_pairs@.len(),
                lookup_from(self.get_pairs@, i as int, token_a, token_b) == lookup_pair(
                    self.get_pairs@,
                    token_a,
                    token_b,
                ),
            decreases n - i,
        {
            let e = self.get_pairs[i];
            if (e.0 == token_a && e.1 == token_b) || (e.0 == token_b && e.1 == token_a) {
                return Some(e.2);
            }
            i = i + 1;
        }
        None
    }

    /// Changes the fee recipient; refused with `ForbiddenCaller`, changing
    /// nothing, unless `caller` is the governor.
    pub fn set_fee_to(&mut self, caller: u128, fee_to: u128) -> (r: Result<(), Error>)
        ensures
            r.is_ok() <==> caller == old(self).fee_to_setter,
            r.is_ok() ==> *final(self) == (UniswapCore { fee_to, ..*old(self) }),
            r.is_err() ==> *final(self) == *old(self) && r == Err::<(), Error>(
                Error::ForbiddenCaller,
            ),
    {
        if caller != self.fee_to_setter {
            return Err(Error::ForbiddenCaller);
        }
        self.fee_to = fee_to;
        Ok(())
    }

    /// Hands governance to another identity; refused with `ForbiddenCaller`,
    /// changing nothing, unless `caller` is the current governor.
    pub fn set_fee_to_setter(&mut self, caller: u128, fee_to_setter: u128) -> (r: Result<(), Error>)
        ensures
            r.is_ok() <==> caller == old(self).fee_to_setter,
            r.is_ok() ==> *final(self) == (UniswapCore { fee_to_setter, ..*old(self) }),
            r.is_err() ==> *final(self) == *old(self) && r == Err::<(), Error>(
                Error::ForbiddenCaller,
            ),
    {
        if caller != self.fee_to_setter {
            return Err(Error::ForbiddenCaller);
        }
        self.fee_to_setter = fee_to_setter;
        Ok(())
    }

    /// Registers the pool `pair` for the token pair `(token_a, token_b)`.
    ///
    /// Fails with `IdenticalAddresses` for a token paired with itself, with
    /// `ZeroAddress` when either token is the null identity, and with
    /// `PairExists` when the pair is already registered in either order; a
    /// failure changes nothing.  On success the pair is served by lookups
    /// in both token orders, appended to the enumerable pair list, and
    /// announced with its index in that list.
    pub fn create_pair(&mut self, token_a: u128, token_b: u128, pair: u128) -> (r: Result<
        u128,
        Error,
    >)
        requires
            old(self).wf(),
            old(self).all_pairs@.len() < u32::MAX,
        ensures
            final(self).wf(),
            r == create_pair_decision(old(self).get_pairs@, token_a, token_b, pair),
            r.is_ok() ==> ({
                &&& final(self).get_pairs@ == old(self).get_pairs@.push((token_a, token_b, pair))
                &&& final(self).all_pairs@ == old(self).all_pairs@.push(pair)
                &&& final(self).events@ == old(self).events@.push(
                    (PairCreated {
                        token0: Some(token_a),
                        token1: Some(token_b),
                        pair: Some(pair),
                        pair_index: old(self).all_pairs@.len() as u32,
                    }),
                )
                &&& final(self).fee_to == old(self).fee_to
                &&& final(self).fee_to_setter == old(self).fee_to_setter
                &&& lookup_pair(final(self).get_pairs@, token_a, token_b) == Some(pair)
                &&& lookup_pair(final(self).get_pairs@, token_b, token_a) == Some(pair)
            }),
            r.is_err() ==> *final(self) == *old(self),
    {
        if token_a == token_b {
            return Err(Error::IdenticalAddresses);
        }
        if token_a == 0 || token_b == 0 {
            return Err(Error::ZeroAddress);
        }
        let existing = self.get_pair(token_a, token_b);
        if existing.is_some() {
            return Err(Error::PairExists);
        }
        let index = self.all_pairs.len() as u32;
        self.get_pairs.push((token_a, token_b, pair));
        self.all_pairs.push(pair);
        self.events.push(
            PairCreated {
                token0: Some(token_a),
                token1: Some(token_b),
                pair: Some(pair),
                pair_index: index,
            },
        );
        proof {
            lemma_lookup_push(old(self).get_pairs@, (token_a, token_b, pair), 0, token_a, token_b);
            lemma_lookup_symmetric(old(self).get_pairs@, 0, token_b, token_a);
            lemma_lookup_push(old(self).get_pairs@, (token_a, token_b, pair), 0, token_b, token_a);
        }
        Ok(pair)
    }
}

impl Default for UniswapCore {
    /// A fresh registry with nobody in charge: fee collection disabled and
    /// governance held by the null identity.
    fn default() -> (r: UniswapCore)
        ensures
            r.fee_to == 0,
            r.fee_to_setter == 0,
            r.get_pairs@ == Seq::<(u128, u128, u128)>::empty(),
            r.all_pairs@ == Seq::<u128>::empty(),
            r.events@ == Seq::<PairCreated>::empty(),
            r.wf(),
    {
        UniswapCore::new(0)
    }
}


} // verus!
