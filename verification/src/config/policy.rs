//! The policy a cluster commits and a plan requests.
use super::{copy_texts, same_texts, texts, Durability, FailureDomain, Placement};
use crate::codec::{concat_assoc, cut_behind, texts_are_models, Wire};
use crate::hashing;
use vstd::prelude::*;

verus! {

/// A policy as bytes and comparisons see it.
pub struct PolicyModel {
    pub durability: Durability,
    pub residency: Seq<Seq<char>>,
    pub home_regions: Seq<Seq<char>>,
}

/// The durability and placement an operator asks for.
#[derive(Debug, Clone, PartialEq, Eq)]
pub struct PolicyIntent {
    pub durability: Durability,
    pub placement: Placement,
}

impl View for PolicyIntent {
    type V = PolicyModel;

    open spec fn view(&self) -> PolicyModel {
        PolicyModel {
            durability: self.durability,
            residency: texts(self.placement.residency@),
            home_regions: texts(self.placement.home_regions@),
        }
    }
}

/// A committed policy's revision.
#[derive(Debug, Clone, Copy, PartialEq, Eq, Structural)]
pub struct PolicyRevision(pub u64);

/// The policy a node committed last.
#[derive(Debug, Clone, PartialEq, Eq)]
pub struct CommittedPolicy {
    pub revision: PolicyRevision,
    pub hash: [u8; 32],
    pub intent: PolicyIntent,
}

/// The hash that identifies a policy: BLAKE3 of its bytes.
pub open spec fn policy_hash(m: PolicyModel) -> [u8; 32] {
    hashing::blake3_hash(PolicyIntent::bytes(m))
}

impl PolicyIntent {
    /// Copy the policy.
    pub fn duplicate(&self) -> (copy: Self)
        ensures
            copy@ == self@,
    {
        PolicyIntent {
            durability: self.durability,
            placement: Placement {
                residency: copy_texts(&self.placement.residency),
                home_regions: copy_texts(&self.placement.home_regions),
            },
        }
    }

    /// Whether two policies ask for the same.
    pub fn same(&self, other: &Self) -> (same: bool)
        ensures
            same == (self@ == other@),
    {
        self.durability == other.durability && same_texts(
            &self.placement.residency,
            &other.placement.residency,
        ) && same_texts(&self.placement.home_regions, &other.placement.home_regions)
    }

    /// The hash that identifies the policy.
    pub fn hash(&self) -> (digest: [u8; 32])
        ensures
            digest == policy_hash(self@),
    {
        let mut bytes: Vec<u8> = Vec::new();
        self.put(&mut bytes);
        assert(bytes@ =~= PolicyIntent::bytes(self@));
        hashing::hash(bytes.as_slice())
    }
}

impl Wire for FailureDomain {
    type M = FailureDomain;

    open spec fn model(&self) -> FailureDomain {
        *self
    }

    open spec fn bytes(m: FailureDomain) -> Seq<u8> {
        match m {
            FailureDomain::Node => u32::bytes(0u32),
            FailureDomain::Zone => u32::bytes(1u32),
            FailureDomain::Region => u32::bytes(2u32),
        }
    }

    open spec fn parse(b: Seq<u8>) -> Option<(FailureDomain, Seq<u8>)> {
        match u32::parse(b) {
            None => None,
            Some((tag, b0)) => if tag == 0 {
                Some((FailureDomain::Node, b0))
            } else if tag == 1 {
                Some((FailureDomain::Zone, b0))
            } else if tag == 2 {
                Some((FailureDomain::Region, b0))
            } else {
                None
            },
        }
    }

    fn put(&self, out: &mut Vec<u8>) {
        broadcast use concat_assoc;

        match self {
            FailureDomain::Node => {
                let tag: u32 = 0;
                tag.put(out);
            },
            FailureDomain::Zone => {
                let tag: u32 = 1;
                tag.put(out);
            },
            FailureDomain::Region => {
                let tag: u32 = 2;
                tag.put(out);
            },
        }
    }

    fn read(input: &[u8]) -> Option<(FailureDomain, &[u8])> {
        match u32::read(input) {
            None => None,
            Some((tag, b0)) => if tag == 0 {
                Some((FailureDomain::Node, b0))
            } else if tag == 1 {
                Some((FailureDomain::Zone, b0))
            } else if tag == 2 {
                Some((FailureDomain::Region, b0))
            } else {
                None
            },
        }
    }
}

impl Wire for Durability {
    type M = Durability;

    open spec fn model(&self) -> Durability {
        *self
    }

    open spec fn bytes(m: Durability) -> Seq<u8> {
        FailureDomain::bytes(m.survive) + (u16::bytes(m.max_failures))
    }

    open spec fn parse(b: Seq<u8>) -> Option<(Durability, Seq<u8>)> {
        match FailureDomain::parse(b) {
            None => None,
            Some((survive, b1)) => match u16::parse(b1) {
                None => None,
                Some((max_failures, b2)) => Some((Durability { survive, max_failures }, b2)),
            },
        }
    }

    fn put(&self, out: &mut Vec<u8>) {
        broadcast use concat_assoc;

        self.survive.put(out);
        self.max_failures.put(out);
        proof {
            let m = self.model();
            assert forall|n: int| 0 <= n < Self::bytes(self.model()).len() implies Self::parse(
                #[trigger] Self::bytes(self.model()).take(n),
            ) is None by {
                let s1 = u16::bytes(m.max_failures);
                cut_behind::<FailureDomain>(m.survive, s1, n);
                let n1 = n - FailureDomain::bytes(m.survive).len();
                if 0 <= n1 {
                    assert(u16::parse(u16::bytes(m.max_failures).take(n1)) is None);
                }
            }
        }
    }

    fn read(input: &[u8]) -> Option<(Durability, &[u8])> {
        match FailureDomain::read(input) {
            None => None,
            Some((survive, b1)) => match u16::read(b1) {
                None => None,
                Some((max_failures, b2)) => Some((Durability { survive, max_failures }, b2)),
            },
        }
    }
}

impl Wire for PolicyIntent {
    type M = PolicyModel;

    open spec fn model(&self) -> PolicyModel {
        self@
    }

    open spec fn bytes(m: PolicyModel) -> Seq<u8> {
        Durability::bytes(m.durability) + (<Vec<String>>::bytes(m.residency) + <Vec<
            String,
        >>::bytes(m.home_regions))
    }

    open spec fn parse(b: Seq<u8>) -> Option<(PolicyModel, Seq<u8>)> {
        match Durability::parse(b) {
            None => None,
            Some((durability, b1)) => match <Vec<String>>::parse(b1) {
                None => None,
                Some((residency, b2)) => match <Vec<String>>::parse(b2) {
                    None => None,
                    Some((home_regions, b3)) => Some(
                        (PolicyModel { durability, residency, home_regions }, b3),
                    ),
                },
            },
        }
    }

    fn put(&self, out: &mut Vec<u8>) {
        broadcast use {concat_assoc, texts_are_models};

        self.durability.put(out);
        self.placement.residency.put(out);
        self.placement.home_regions.put(out);
        proof {
            let m = self.model();
            assert forall|n: int| 0 <= n < Self::bytes(self.model()).len() implies Self::parse(
                #[trigger] Self::bytes(self.model()).take(n),
            ) is None by {
                let s2 = <Vec<String>>::bytes(m.home_regions);
                let s1 = <Vec<String>>::bytes(m.residency) + s2;
                cut_behind::<Durability>(m.durability, s1, n);
                let n1 = n - Durability::bytes(m.durability).len();
                cut_behind::<Vec<String>>(m.residency, s2, n1);
                let n2 = n1 - <Vec<String>>::bytes(m.residency).len();
                if 0 <= n2 {
                    assert(<Vec<String>>::parse(<Vec<String>>::bytes(m.home_regions).take(n2)) is None);
                }
            }
        }
    }

    fn read(input: &[u8]) -> Option<(PolicyIntent, &[u8])> {
        match Durability::read(input) {
            None => None,
            Some((durability, b1)) => match <Vec<String>>::read(b1) {
                None => None,
                Some((residency, b2)) => match <Vec<String>>::read(b2) {
                    None => None,
                    Some((home_regions, b3)) => {
                        broadcast use texts_are_models;

                        Some(
                            (
                                PolicyIntent {
                                    durability,
                                    placement: Placement { residency, home_regions },
                                },
                                b3,
                            ),
                        )
                    },
                },
            },
        }
    }
}

} // verus!
