//! Teleburn lookups: which outputs a lookup request reports.
//!
//! A request may carry a teleburn address to resolve back to an
//! inscription, an inscription identifier to derive a teleburn address
//! for, or both.  The index query and the address derivation are outside
//! collaborators; the caller performs them and hands in their results, and
//! this module decides, verifiably, what is reported.

use vstd::prelude::*;

use crate::types::InscriptionId;

verus! {

/// An Ethereum-style teleburn address derived from an inscription
/// identifier: twenty octets.
#[derive(Clone, Debug, PartialEq, Eq)]
pub struct EthereumTeleburnAddress {
    /// The address's octets.
    pub octets: Vec<u8>,
}

/// One reported lookup result.
pub enum Output {
    /// The teleburn address derived for an inscription.
    Ethereum(EthereumTeleburnAddress),
    /// The inscription an address resolves back to.
    Inscription(InscriptionId),
}

/// A teleburn lookup request.
pub struct Teleburn {
    /// A teleburn address to resolve back to an inscription.
    pub reverse: Option<String>,
    /// An inscription to derive a teleburn address for.
    pub inscription_id: Option<InscriptionId>,
}

impl Teleburn {
    /// Decide what a lookup request reports.
    ///
    /// `reverse_lookup` is the index's answer for the request's reverse
    /// address, when the request carries one; `derived` is the address the
    /// collaborator derived from the request's inscription identifier,
    /// exactly when the request carries one.  A resolved inscription is
    /// reported first, then the derived address; an unresolved reverse
    /// address reports nothing.
    pub fn run(
        self,
        reverse_lookup: Option<InscriptionId>,
        derived: Option<EthereumTeleburnAddress>,
    ) -> (out: Vec<Output>)
        requires
            self.reverse is None ==> reverse_lookup is None,
            self.inscription_id is Some <==> derived is Some,
        ensures
            out@ == Self::spec_reported(reverse_lookup, derived),
    {
        let mut out: Vec<Output> = Vec::new();
        let had_reverse = reverse_lookup.is_some();
        if let Some(id) = reverse_lookup {
            out.push(Output::Inscription(id));
        }
        let ghost mid = out@;
        proof {
            if had_reverse {
                assert(mid =~= Seq::empty().push(
                    Output::Inscription(reverse_lookup->Some_0),
                ));
            } else {
                assert(mid =~= Seq::<Output>::empty());
            }
        }
        if let Some(addr) = derived {
            out.push(Output::Ethereum(addr));
        }
        proof {
            assert(out@ =~= Self::spec_reported(reverse_lookup, derived));
        }
        out
    }

    /// What a request reports: the resolved inscription, if any, then the
    /// derived address, if any.
    pub open spec fn spec_reported(
        reverse_lookup: Option<InscriptionId>,
        derived: Option<EthereumTeleburnAddress>,
    ) -> Seq<Output> {
        let first: Seq<Output> = match reverse_lookup {
            Some(id) => seq![Output::Inscription(id)],
            None => Seq::empty(),
        };
        let second: Seq<Output> = match derived {
            Some(a) => seq![Output::Ethereum(a)],
            None => Seq::empty(),
        };
        first + second
    }
}

} // verus!
