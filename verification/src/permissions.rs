//! The capability bitset attached to every journal invitation.
//!
//! A [`Permissions`] value is a set over five capabilities, held in the low five
//! bits of a `u16`. Its view is that `u16`; no value carries a bit outside the five.

use vstd::prelude::*;

verus! {

/// Bit of the capability to read a journal.
pub const READ: u16 = 1;

/// Bit of the capability to add an account to a journal.
pub const ADDACCOUNT: u16 = 2;

/// Bit of the capability to record a transaction in a journal.
pub const APPENDTRANSACTION: u16 = 4;

/// Bit of the capability to invite further users to a journal.
pub const INVITE: u16 = 8;

/// Bit of the capability to delete a journal.
pub const DELETE: u16 = 16;

/// All five capability bits.
pub const ALL: u16 = 31;

/// Whether `bits` holds nothing but capability bits.
pub open spec fn known_bits(bits: u16) -> bool {
    bits <= ALL
}

/// Whether `flag` is one capability.
pub open spec fn is_capability(flag: u16) -> bool {
    flag == READ || flag == ADDACCOUNT || flag == APPENDTRANSACTION || flag == INVITE || flag
        == DELETE
}

/// Whether the set `bits` holds every capability of the set `wanted`.
pub open spec fn covers(bits: u16, wanted: u16) -> bool {
    bits & wanted == wanted
}

/// Whether `flag` is requested but not held.
pub open spec fn lacks(held: u16, requested: u16, flag: u16) -> bool {
    covers(requested, flag) && !covers(held, flag)
}

/// The lowest capability that `requested` holds and `held` does not; `None`
/// where `held` covers `requested`.
pub open spec fn first_missing(held: u16, requested: u16) -> Option<u16> {
    if lacks(held, requested, READ) {
        Some(READ)
    } else if lacks(held, requested, ADDACCOUNT) {
        Some(ADDACCOUNT)
    } else if lacks(held, requested, APPENDTRANSACTION) {
        Some(APPENDTRANSACTION)
    } else if lacks(held, requested, INVITE) {
        Some(INVITE)
    } else if lacks(held, requested, DELETE) {
        Some(DELETE)
    } else {
        None
    }
}

/// The capabilities of `bits` as single flags, lowest bit first.
pub open spec fn flags_of(bits: u16) -> Seq<u16> {
    let a = if covers(bits, READ) { seq![READ] } else { Seq::<u16>::empty() };
    let b = if covers(bits, ADDACCOUNT) { a.push(ADDACCOUNT) } else { a };
    let c = if covers(bits, APPENDTRANSACTION) { b.push(APPENDTRANSACTION) } else { b };
    let d = if covers(bits, INVITE) { c.push(INVITE) } else { c };
    if covers(bits, DELETE) { d.push(DELETE) } else { d }
}

/// A set of journal capabilities.
#[derive(Clone, Copy, Debug, PartialEq, Eq, Hash, Structural)]
pub struct Permissions(u16);

impl View for Permissions {
    type V = u16;

    closed spec fn view(&self) -> u16 {
        self.0
    }
}

impl Default for Permissions {
    /// The set without any capability.
    fn default() -> (p: Permissions)
        ensures
            p@ == 0,
    {
        Permissions(0)
    }
}

impl Permissions {
    #[verifier::type_invariant]
    spec fn only_known_bits(self) -> bool {
        known_bits(self.0)
    }

    /// The capability to read a journal.
    pub fn read() -> (p: Permissions)
        ensures
            p@ == READ,
    {
        Permissions(READ)
    }

    /// The capability to add an account.
    pub fn add_account() -> (p: Permissions)
        ensures
            p@ == ADDACCOUNT,
    {
        Permissions(ADDACCOUNT)
    }

    /// The capability to record a transaction.
    pub fn append_transaction() -> (p: Permissions)
        ensures
            p@ == APPENDTRANSACTION,
    {
        Permissions(APPENDTRANSACTION)
    }

    /// The capability to invite further users.
    pub fn invite() -> (p: Permissions)
        ensures
            p@ == INVITE,
    {
        Permissions(INVITE)
    }

    /// The capability to delete a journal.
    pub fn delete() -> (p: Permissions)
        ensures
            p@ == DELETE,
    {
        Permissions(DELETE)
    }

    /// The set without any capability.
    pub fn empty() -> (p: Permissions)
        ensures
            p@ == 0,
    {
        Permissions(0)
    }

    /// The set of all five capabilities.
    pub fn all() -> (p: Permissions)
        ensures
            p@ == ALL,
    {
        Permissions(ALL)
    }

    /// The set as its bits.
    pub fn bits(&self) -> (b: u16)
        ensures
            b == self@,
            known_bits(b),
    {
        proof {
            use_type_invariant(self);
        }
        self.0
    }

    /// The set with the given bits, unless one of them is no capability.
    pub fn from_bits(bits: u16) -> (p: Option<Permissions>)
        ensures
            p is Some <==> known_bits(bits),
            p matches Some(q) ==> q@ == bits,
    {
        if bits <= ALL {
            Some(Permissions(bits))
        } else {
            None
        }
    }

    /// The set with the capability bits among `bits`; the others are dropped.
    pub fn from_bits_truncate(bits: u16) -> (p: Permissions)
        ensures
            p@ == bits & ALL,
    {
        assert(bits & 31 <= 31) by (bit_vector);
        Permissions(bits & ALL)
    }

    /// Whether the set holds no capability.
    pub fn is_empty(&self) -> (b: bool)
        ensures
            b == (self@ == 0),
    {
        self.0 == 0
    }

    /// Whether every capability of `other` is in this set.
    pub fn contains(&self, other: Permissions) -> (b: bool)
        ensures
            b == covers(self@, other@),
    {
        self.0 & other.0 == other.0
    }

    /// The capabilities that are in this set or in `other`.
    pub fn union(self, other: Permissions) -> (p: Permissions)
        ensures
            p@ == self@ | other@,
    {
        proof {
            use_type_invariant(self);
            use_type_invariant(other);
        }
        let a: u16 = self.0;
        let b: u16 = other.0;
        assert(a <= 31 && b <= 31 ==> (a | b) <= 31) by (bit_vector);
        Permissions(a | b)
    }

    /// The capabilities that are in this set and in `other`.
    pub fn intersection(self, other: Permissions) -> (p: Permissions)
        ensures
            p@ == self@ & other@,
    {
        proof {
            use_type_invariant(self);
        }
        let a: u16 = self.0;
        let b: u16 = other.0;
        assert(a <= 31 ==> (a & b) <= 31) by (bit_vector);
        Permissions(a & b)
    }

    /// The lowest capability of `requested` that this set does not hold, if any.
    pub fn first_missing(&self, requested: Permissions) -> (missing: Option<Permissions>)
        ensures
            missing is Some <==> first_missing(self@, requested@) is Some,
            missing matches Some(flag) ==> Some(flag@) == first_missing(self@, requested@),
    {
        let held: u16 = self.0;
        let wanted: u16 = requested.0;
        if wanted & READ == READ && held & READ != READ {
            Some(Permissions(READ))
        } else if wanted & ADDACCOUNT == ADDACCOUNT && held & ADDACCOUNT != ADDACCOUNT {
            Some(Permissions(ADDACCOUNT))
        } else if wanted & APPENDTRANSACTION == APPENDTRANSACTION && held & APPENDTRANSACTION
            != APPENDTRANSACTION {
            Some(Permissions(APPENDTRANSACTION))
        } else if wanted & INVITE == INVITE && held & INVITE != INVITE {
            Some(Permissions(INVITE))
        } else if wanted & DELETE == DELETE && held & DELETE != DELETE {
            Some(Permissions(DELETE))
        } else {
            None
        }
    }

    /// The capabilities of this set as single flags, lowest bit first.
    pub fn flags(&self) -> (list: Vec<Permissions>)
        ensures
            list@.map_values(|p: Permissions| p@) == flags_of(self@),
    {
        let bits: u16 = self.0;
        let mut list: Vec<Permissions> = Vec::new();
        let ghost view = |p: Permissions| p@;
        assert(list@.map_values(view) =~= Seq::<u16>::empty());
        if bits & READ == READ {
            list.push(Permissions(READ));
            assert(list@.map_values(view) =~= seq![READ]);
        }
        let ghost a = list@;
        if bits & ADDACCOUNT == ADDACCOUNT {
            list.push(Permissions(ADDACCOUNT));
            assert(list@.map_values(view) =~= a.map_values(view).push(ADDACCOUNT));
        }
        let ghost b = list@;
        if bits & APPENDTRANSACTION == APPENDTRANSACTION {
            list.push(Permissions(APPENDTRANSACTION));
            assert(list@.map_values(view) =~= b.map_values(view).push(APPENDTRANSACTION));
        }
        let ghost c = list@;
        if bits & INVITE == INVITE {
            list.push(Permissions(INVITE));
            assert(list@.map_values(view) =~= c.map_values(view).push(INVITE));
        }
        let ghost d = list@;
        if bits & DELETE == DELETE {
            list.push(Permissions(DELETE));
            assert(list@.map_values(view) =~= d.map_values(view).push(DELETE));
        }
        list
    }
}

/// Two sets with the same bits are the same set.
pub proof fn same_bits_same_set(a: Permissions, b: Permissions)
    requires
        a@ == b@,
    ensures
        a == b,
{
}

/// A set that holds nothing but capabilities lacks none of `requested` exactly
/// when it covers `requested`.
pub proof fn first_missing_none_iff_covered(held: u16, requested: u16)
    requires
        known_bits(requested),
    ensures
        first_missing(held, requested) is None <==> covers(held, requested),
{
    assert(requested <= 31 ==> ((held & requested == requested) <==> !((requested & 1 == 1 && held
        & 1 != 1) || (requested & 2 == 2 && held & 2 != 2) || (requested & 4 == 4 && held & 4 != 4)
        || (requested & 8 == 8 && held & 8 != 8) || (requested & 16 == 16 && held & 16 != 16))))
        by (bit_vector);
}

/// What is reported as missing is one capability, requested and not held.
pub proof fn first_missing_is_lacking(held: u16, requested: u16)
    ensures
        first_missing(held, requested) matches Some(flag) ==> is_capability(flag) && lacks(
            held,
            requested,
            flag,
        ),
{
}

/// Covering is reflexive and transitive, and the union of two sets covers both.
pub proof fn covers_is_an_order(a: u16, b: u16, c: u16)
    ensures
        covers(a, a),
        covers(a, b) && covers(b, c) ==> covers(a, c),
        covers(a | b, a),
        covers(a | b, b),
        covers(a, 0),
{
    assert(a & a == a) by (bit_vector);
    assert((a & b == b) && (b & c == c) ==> (a & c == c)) by (bit_vector);
    assert((a | b) & a == a) by (bit_vector);
    assert((a | b) & b == b) by (bit_vector);
    assert(a & 0 == 0) by (bit_vector);
}

} // verus!
