//! Ledger addresses, as far as the pool reads them: what they name, whether
//! two are the same, and which of two comes first.

use core::cmp::Ordering;
use vstd::prelude::*;
use vstd::std_specs::cmp::{PartialEqSpec, PartialEqSpecImpl, PartialOrdSpec, PartialOrdSpecImpl};

verus! {

/// What an address names on the ledger.
#[derive(Copy, Clone, Debug, PartialEq, Eq, Structural)]
pub enum AddressKind {
    /// An account, named by its Ed25519 public key.
    Account,
    /// A contract, named by its identifier.
    Contract,
}

/// An address: its kind, and the 32 bytes that name the account or contract.
#[derive(Copy, Clone, Debug)]
pub struct Address {
    pub kind: AddressKind,
    pub key: [u8; 32],
}

/// `a` and `b` agree before position `i`, and `a` is smaller there.
pub open spec fn first_smaller_at(a: Seq<u8>, b: Seq<u8>, i: int) -> bool {
    &&& 0 <= i < a.len()
    &&& i < b.len()
    &&& a[i] < b[i]
    &&& forall|j: int| 0 <= j < i ==> a[j] == b[j]
}

/// `a` comes before `b` byte by byte.
pub open spec fn bytes_precede(a: Seq<u8>, b: Seq<u8>) -> bool {
    exists|i: int| first_smaller_at(a, b, i)
}

impl Address {
    /// The ledger's order of addresses: accounts before contracts, and the
    /// addresses of one kind by their bytes.
    pub open spec fn precedes(self, other: Address) -> bool {
        if self.kind == other.kind {
            bytes_precede(self.key@, other.key@)
        } else {
            self.kind == AddressKind::Account
        }
    }

    /// Whether this address comes before `other`.
    fn comes_before(&self, other: &Address) -> (before: bool)
        ensures
            before == self.precedes(*other),
    {
        if self.kind == other.kind {
            let at: usize = first_difference(&self.key, &other.key);
            if at < 32 && self.key[at] < other.key[at] {
                assert(first_smaller_at(self.key@, other.key@, at as int));
                true
            } else {
                proof {
                    lemma_not_smaller_after_difference(self.key@, other.key@, at as int);
                }
                false
            }
        } else {
            self.kind == AddressKind::Account
        }
    }
}

/// The first position at which `a` and `b` differ, or 32 where they agree.
fn first_difference(a: &[u8; 32], b: &[u8; 32]) -> (at: usize)
    ensures
        at <= 32,
        forall|j: int| 0 <= j < at ==> a[j] == b[j],
        at < 32 ==> a[at as int] != b[at as int],
{
    let mut i: usize = 0;
    while i < 32
        invariant
            i <= 32,
            forall|j: int| 0 <= j < i ==> a[j] == b[j],
        decreases 32 - i,
    {
        if a[i] != b[i] {
            return i;
        }
        i = i + 1;
    }
    i
}

proof fn lemma_not_smaller_after_difference(a: Seq<u8>, b: Seq<u8>, at: int)
    requires
        a.len() == b.len(),
        0 <= at <= a.len(),
        forall|j: int| 0 <= j < at ==> a[j] == b[j],
        at < a.len() ==> a[at] > b[at],
    ensures
        !bytes_precede(a, b),
{
    assert forall|i: int| !first_smaller_at(a, b, i) by {
        if first_smaller_at(a, b, i) {
            if at < i {
                assert(a[at] == b[at]);
            }
        }
    }
}

impl PartialEq for Address {
    fn eq(&self, other: &Self) -> (same: bool) {
        let same = self.kind == other.kind && first_difference(&self.key, &other.key) == 32;
        proof {
            if same {
                assert(self.key@ =~= other.key@);
                assert(self.key =~= other.key);
            }
        }
        same
    }
}

impl PartialEqSpecImpl for Address {
    open spec fn obeys_eq_spec() -> bool {
        true
    }

    open spec fn eq_spec(&self, other: &Self) -> bool {
        *self == *other
    }
}

impl Eq for Address {

}

impl PartialOrd for Address {
    fn partial_cmp(&self, other: &Self) -> (order: Option<Ordering>) {
        if *self == *other {
            Some(Ordering::Equal)
        } else if self.comes_before(other) {
            Some(Ordering::Less)
        } else {
            Some(Ordering::Greater)
        }
    }
}

impl PartialOrdSpecImpl for Address {
    open spec fn obeys_partial_cmp_spec() -> bool {
        true
    }

    open spec fn partial_cmp_spec(&self, other: &Self) -> Option<Ordering> {
        if *self == *other {
            Some(Ordering::Equal)
        } else if self.precedes(*other) {
            Some(Ordering::Less)
        } else {
            Some(Ordering::Greater)
        }
    }
}

proof fn lemma_some_order_up_to(a: Seq<u8>, b: Seq<u8>, n: int)
    requires
        a.len() == b.len(),
        0 <= n <= a.len(),
    ensures
        (forall|j: int| 0 <= j < n ==> a[j] == b[j]) || bytes_precede(a, b) || bytes_precede(b, a),
    decreases n,
{
    if n > 0 {
        lemma_some_order_up_to(a, b, n - 1);
        if forall|j: int| 0 <= j < n - 1 ==> a[j] == b[j] {
            if a[n - 1] < b[n - 1] {
                assert(first_smaller_at(a, b, n - 1));
            } else if b[n - 1] < a[n - 1] {
                assert(first_smaller_at(b, a, n - 1));
            }
        }
    }
}

proof fn lemma_bytes_precede_transitive(a: Seq<u8>, b: Seq<u8>, c: Seq<u8>)
    requires
        a.len() == b.len() == c.len(),
        bytes_precede(a, b),
        bytes_precede(b, c),
    ensures
        bytes_precede(a, c),
{
    let i = choose|i: int| first_smaller_at(a, b, i);
    let k = choose|k: int| first_smaller_at(b, c, k);
    assert(first_smaller_at(a, c, if i < k { i } else { k }));
}

/// Addresses are totally ordered: none precedes itself, of two that differ
/// exactly one precedes the other, and what precedes a predecessor precedes.
pub proof fn law_addresses_are_totally_ordered(a: Address, b: Address, c: Address)
    ensures
        !a.precedes(a),
        a != b ==> (a.precedes(b) <==> !b.precedes(a)),
        a.precedes(b) && b.precedes(c) ==> a.precedes(c),
{
    if a.kind == b.kind {
        lemma_some_order_up_to(a.key@, b.key@, 32);
        if a != b && !bytes_precede(a.key@, b.key@) && !bytes_precede(b.key@, a.key@) {
            assert(a.key@ =~= b.key@);
            assert(a.key =~= b.key);
        }
        if bytes_precede(a.key@, b.key@) && bytes_precede(b.key@, a.key@) {
            lemma_bytes_precede_transitive(a.key@, b.key@, a.key@);
        }
        if a.precedes(b) && b.precedes(c) && b.kind == c.kind {
            lemma_bytes_precede_transitive(a.key@, b.key@, c.key@);
        }
    }
}

/// Accounts come before contracts. Of two addresses of one kind, the one that
/// is smaller at the first byte at which they differ comes first.
pub proof fn law_addresses_are_ordered_by_kind_and_bytes(a: Address, b: Address, at: int)
    ensures
        a.kind == AddressKind::Account && b.kind == AddressKind::Contract ==> a.precedes(b)
            && !b.precedes(a),
        a.kind == b.kind && 0 <= at < 32 && a.key[at] < b.key[at] && (forall|j: int|
            0 <= j < at ==> a.key[j] == b.key[j]) ==> a.precedes(b) && !b.precedes(a),
{
    if a.kind == b.kind && 0 <= at < 32 && a.key[at] < b.key[at] && (forall|j: int|
        0 <= j < at ==> a.key[j] == b.key[j]) {
        assert(first_smaller_at(a.key@, b.key@, at));
        law_addresses_are_totally_ordered(a, b, a);
    }
}

/// Comparing two addresses tells which of them comes first, and that neither
/// does only where they are the same.
pub proof fn law_comparison_tells_the_order(a: Address, b: Address)
    ensures
        PartialEqSpec::eq_spec(&a, &b) <==> a.kind == b.kind && forall|i: int| 0 <= i < 32 ==> a.key[i] == b.key[i],
        PartialOrdSpec::partial_cmp_spec(&a, &b) == Some(Ordering::Less) <==> a.precedes(b),
        PartialOrdSpec::partial_cmp_spec(&a, &b) == Some(Ordering::Equal) <==> a == b,
        PartialOrdSpec::partial_cmp_spec(&a, &b) == Some(Ordering::Greater) <==> b.precedes(a),
{
    law_addresses_are_totally_ordered(a, b, a);
    law_addresses_are_totally_ordered(b, a, b);
    if a.kind == b.kind && forall|i: int| 0 <= i < 32 ==> a.key[i] == b.key[i] {
        assert(a.key@ =~= b.key@);
        assert(a.key =~= b.key);
    }
}

} // verus!
