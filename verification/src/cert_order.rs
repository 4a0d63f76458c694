//! The order of certificates: lexicographic on their digests' bytes.

use crate::cert::{digest_compare, lemma_lex_sign, lemma_lex_sign_first_difference, lex_sign, Tx2Cert};
use core::cmp::Ordering;
use vstd::prelude::*;
use vstd::std_specs::cmp::PartialEqSpec;
use vstd::std_specs::cmp::PartialOrdSpec;

verus! {

/// The order that a comparison sign stands for.
pub open spec fn order_of_sign(s: int) -> Ordering {
    if s < 0 {
        Ordering::Less
    } else if s == 0 {
        Ordering::Equal
    } else {
        Ordering::Greater
    }
}

impl PartialOrd for Tx2Cert {
    fn partial_cmp(&self, other: &Self) -> (r: Option<Ordering>) {
        let s = digest_compare(&self.as_digest().0, &other.as_digest().0);
        if s < 0 {
            Some(Ordering::Less)
        } else if s == 0 {
            Some(Ordering::Equal)
        } else {
            Some(Ordering::Greater)
        }
    }
}

impl vstd::std_specs::cmp::PartialOrdSpecImpl for Tx2Cert {
    open spec fn obeys_partial_cmp_spec() -> bool {
        true
    }

    open spec fn partial_cmp_spec(&self, other: &Self) -> Option<Ordering> {
        Some(order_of_sign(lex_sign(self.digest().0@, other.digest().0@)))
    }
}

/// Two certs compare `Equal` exactly when they compare equal with `==`, that
/// is, when their digests hold the same bytes; and swapping them reverses
/// their order.
pub proof fn lemma_cert_order_consistent(a: Tx2Cert, b: Tx2Cert)
    ensures
        (a.partial_cmp_spec(&b) == Some(Ordering::Equal)) <==> a.eq_spec(&b),
        (a.partial_cmp_spec(&b) == Some(Ordering::Less)) <==> (b.partial_cmp_spec(&a) == Some(
            Ordering::Greater,
        )),
{
    lemma_lex_sign(a.digest().0@, b.digest().0@);
}


/// Certs are ordered by the first byte at which their digests differ: where
/// the digests agree before position `i` and the digest of `a` holds the
/// smaller unsigned byte at `i`, `a` compares `Less` than `b` and `b` compares
/// `Greater` than `a`.
pub proof fn lemma_cert_order_first_difference(a: Tx2Cert, b: Tx2Cert, i: int)
    requires
        0 <= i < 32,
        forall|j: int| 0 <= j < i ==> a.digest().0@[j] == b.digest().0@[j],
        a.digest().0@[i] < b.digest().0@[i],
    ensures
        a.partial_cmp_spec(&b) == Some(Ordering::Less),
        b.partial_cmp_spec(&a) == Some(Ordering::Greater),
{
    lemma_lex_sign_first_difference(a.digest().0@, b.digest().0@, i);
}

} // verus!
