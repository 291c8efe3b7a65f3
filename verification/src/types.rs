//! Shared data model: node identity, browse references and results, and the
//! security parameters collected by the connect dialog.

use vstd::prelude::*;

verus! {

/// The numeric identifier of the root folder of the address space, the
/// synthetic starting point of every population.
pub const ROOT_FOLDER_IDENTIFIER: u64 = 84;

/// Identity of a remote resource: a namespace index and a numeric identifier
/// within that namespace. Immutable once obtained; used as the cache key.
#[derive(Clone, Copy, Debug, PartialEq, Eq, Structural)]
pub struct NodeId {
    pub namespace: u16,
    pub identifier: u64,
}

impl NodeId {
    /// The identity under which the synthetic root folder is browsed.
    pub open spec fn spec_root_folder() -> NodeId {
        NodeId { namespace: 0, identifier: ROOT_FOLDER_IDENTIFIER }
    }

    /// Builds the root-folder identity.
    pub fn root_folder() -> (n: NodeId)
        ensures
            n == NodeId::spec_root_folder(),
    {
        NodeId { namespace: 0, identifier: ROOT_FOLDER_IDENTIFIER }
    }
}

/// One parent-to-child edge reported by a browse: the target node together
/// with its names and the type of the reference. Produced only by the
/// connection service.
pub struct Reference {
    pub node_id: NodeId,
    pub browse_name: String,
    pub display_name: String,
    pub reference_type_id: NodeId,
}

/// Mathematical value of a [`Reference`]: the strings are sequences of
/// characters.
#[verifier::ext_equal]
pub struct ReferenceView {
    pub node_id: NodeId,
    pub browse_name: Seq<char>,
    pub display_name: Seq<char>,
    pub reference_type_id: NodeId,
}

impl View for Reference {
    type V = ReferenceView;

    open spec fn view(&self) -> ReferenceView {
        ReferenceView {
            node_id: self.node_id,
            browse_name: self.browse_name@,
            display_name: self.display_name@,
            reference_type_id: self.reference_type_id,
        }
    }
}

impl Reference {
    /// An exact copy; every field of the result equals the original's.
    pub fn duplicate(&self) -> (r: Reference)
        ensures
            r == *self,
    {
        Reference {
            node_id: self.node_id,
            browse_name: self.browse_name.clone(),
            display_name: self.display_name.clone(),
            reference_type_id: self.reference_type_id,
        }
    }
}

/// Outcome of one browse call: a status and, on success, the references of
/// the browsed node in the order the server returned them.
pub struct BrowseResult {
    pub status_good: bool,
    pub references: Vec<Reference>,
}

/// Mathematical value of a [`BrowseResult`].
#[verifier::ext_equal]
pub struct BrowseResultView {
    pub status_good: bool,
    pub references: Seq<ReferenceView>,
}

impl View for BrowseResult {
    type V = BrowseResultView;

    open spec fn view(&self) -> BrowseResultView {
        BrowseResultView {
            status_good: self.status_good,
            references: self.references@.map_values(|r: Reference| r@),
        }
    }
}

/// Security policy requested for a session, as collected by the connect
/// dialog.
#[derive(Clone, Copy, Debug, PartialEq, Eq, Structural)]
pub enum SecurityPolicy {
    NoSecurity,
    Basic128Rsa15,
    Basic256,
    Basic256Sha256,
}

/// Message security mode requested for a session.
#[derive(Clone, Copy, Debug, PartialEq, Eq, Structural)]
pub enum MessageSecurityMode {
    NoSecurity,
    Sign,
    SignAndEncrypt,
}

/// State of the single network session, owned by the connection service and
/// reported to the render context only through events.
#[derive(Clone, Copy, Debug, PartialEq, Eq, Structural)]
pub enum ConnectionState {
    Disconnected,
    Connecting,
    Connected,
}

} // verus!
