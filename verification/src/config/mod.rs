//! The configuration a deployment is requested with.
pub mod policy;

use vstd::prelude::*;

verus! {

/// What a deployment survives the loss of.
#[derive(Debug, Clone, Copy, PartialEq, Eq, Structural)]
pub enum FailureDomain {
    Node,
    Zone,
    Region,
}

/// How many losses of which failure domain a deployment survives.
#[derive(Debug, Clone, Copy, PartialEq, Eq, Structural)]
pub struct Durability {
    pub survive: FailureDomain,
    pub max_failures: u16,
}

impl Default for Durability {
    fn default() -> (durability: Self)
        ensures
            durability == (Durability { survive: FailureDomain::Node, max_failures: 0 }),
    {
        Durability { survive: FailureDomain::Node, max_failures: 0 }
    }
}

/// Where replicas may live and where they should.
#[derive(Debug, Clone, PartialEq, Eq)]
pub struct Placement {
    pub residency: Vec<String>,
    pub home_regions: Vec<String>,
}

impl Default for Placement {
    fn default() -> (placement: Self)
        ensures
            placement.residency@.len() == 0,
            placement.home_regions@.len() == 0,
    {
        Placement { residency: Vec::new(), home_regions: Vec::new() }
    }
}

/// The texts of a list.
pub open spec fn texts(list: Seq<String>) -> Seq<Seq<char>> {
    Seq::new(list.len(), |i: int| list[i]@)
}

/// Copy a list of texts.
pub fn copy_texts(list: &Vec<String>) -> (copy: Vec<String>)
    ensures
        copy@ == list@,
        texts(copy@) == texts(list@),
{
    let copy = list.clone();
    assert(copy@ =~= list@);
    copy
}

/// Whether two lists hold the same texts.
pub fn same_texts(a: &Vec<String>, b: &Vec<String>) -> (same: bool)
    ensures
        same == (texts(a@) == texts(b@)),
{
    if a.len() != b.len() {
        assert(texts(a@).len() != texts(b@).len());
        return false;
    }
    let mut i: usize = 0;
    while i < a.len()
        invariant
            i <= a.len(),
            a@.len() == b@.len(),
            forall|j: int| 0 <= j < i ==> a@[j]@ == b@[j]@,
        decreases a.len() - i,
    {
        if !crate::text::same_text(a[i].as_str(), b[i].as_str()) {
            assert(texts(a@)[i as int] != texts(b@)[i as int]);
            return false;
        }
        i += 1;
    }
    assert(texts(a@) =~= texts(b@));
    true
}

/// The node's own addresses and limits.
#[derive(Debug, Clone, PartialEq, Eq)]
pub struct NodeSettings {
    pub listen: Option<String>,
    pub advertise: Option<String>,
    pub metrics_listen: Option<String>,
    pub max_tenants: Option<u32>,
}

impl Default for NodeSettings {
    fn default() -> (node: Self)
        ensures
            node == (NodeSettings {
                listen: None,
                advertise: None,
                metrics_listen: None,
                max_tenants: None,
            }),
    {
        NodeSettings { listen: None, advertise: None, metrics_listen: None, max_tenants: None }
    }
}

/// Where the node stands.
#[derive(Debug, Clone, PartialEq, Eq)]
pub struct Topology {
    pub region: Option<String>,
    pub zone: Option<String>,
}

impl Default for Topology {
    fn default() -> (topology: Self)
        ensures
            topology == (Topology { region: None, zone: None }),
    {
        Topology { region: None, zone: None }
    }
}

/// A configuration, as far as deployment reads it.
#[derive(Debug, Clone, PartialEq, Eq)]
pub struct Settings {
    pub node: NodeSettings,
    pub topology: Topology,
    pub durability: Durability,
    pub placement: Placement,
}

impl Default for Settings {
    fn default() -> (settings: Self)
        ensures
            settings.node == (NodeSettings {
                listen: None,
                advertise: None,
                metrics_listen: None,
                max_tenants: None,
            }),
            settings.topology == (Topology { region: None, zone: None }),
            settings.durability == (Durability { survive: FailureDomain::Node, max_failures: 0 }),
            settings.placement.residency@.len() == 0,
            settings.placement.home_regions@.len() == 0,
    {
        Settings {
            node: NodeSettings::default(),
            topology: Topology::default(),
            durability: Durability::default(),
            placement: Placement::default(),
        }
    }
}

impl Settings {
    /// The policy the configuration requests.
    pub fn policy_intent(&self) -> (intent: policy::PolicyIntent)
        ensures
            intent@ == (policy::PolicyModel {
                durability: self.durability,
                residency: texts(self.placement.residency@),
                home_regions: texts(self.placement.home_regions@),
            }),
    {
        policy::PolicyIntent {
            durability: self.durability,
            placement: Placement {
                residency: copy_texts(&self.placement.residency),
                home_regions: copy_texts(&self.placement.home_regions),
            },
        }
    }
}

} // verus!
