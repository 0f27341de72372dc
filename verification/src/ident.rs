//! Identifiers of chains and of the IBC entities that live on them.
//!
//! Every identifier is an opaque string. Two identifiers are the same when
//! their characters are the same, so contracts speak of an identifier by its
//! view, a `Seq<char>`.

use vstd::prelude::*;
use vstd::std_specs::cmp::PartialEqSpecImpl;

verus! {

/// The identifier of a chain.
#[derive(Debug, Eq, Hash)]
pub struct ChainId {
    id: String,
}

impl View for ChainId {
    type V = Seq<char>;

    closed spec fn view(&self) -> Seq<char> {
        self.id@
    }
}

impl ChainId {
    /// The identifier that reads `id`.
    pub fn new(id: String) -> (r: ChainId)
        ensures
            r@ == id@,
    {
        ChainId { id }
    }

    /// The identifier as text.
    pub fn as_str(&self) -> (s: &str)
        ensures
            s@ == self@,
    {
        self.id.as_str()
    }
}

impl Clone for ChainId {
    fn clone(&self) -> (r: ChainId)
        ensures
            r == *self,
    {
        ChainId { id: self.id.clone() }
    }
}

impl PartialEq for ChainId {
    fn eq(&self, other: &ChainId) -> (r: bool) {
        self.id == other.id
    }
}

impl PartialEqSpecImpl for ChainId {
    open spec fn obeys_eq_spec() -> bool {
        true
    }

    open spec fn eq_spec(&self, other: &ChainId) -> bool {
        self@ == other@
    }
}

/// The identifier of a light client, unique on the chain that hosts it.
#[derive(Debug, Eq, Hash)]
pub struct ClientId {
    id: String,
}

impl View for ClientId {
    type V = Seq<char>;

    closed spec fn view(&self) -> Seq<char> {
        self.id@
    }
}

impl ClientId {
    /// The identifier that reads `id`.
    pub fn new(id: String) -> (r: ClientId)
        ensures
            r@ == id@,
    {
        ClientId { id }
    }

    /// The identifier as text.
    pub fn as_str(&self) -> (s: &str)
        ensures
            s@ == self@,
    {
        self.id.as_str()
    }
}

impl Clone for ClientId {
    fn clone(&self) -> (r: ClientId)
        ensures
            r == *self,
    {
        ClientId { id: self.id.clone() }
    }
}

impl PartialEq for ClientId {
    fn eq(&self, other: &ClientId) -> (r: bool) {
        self.id == other.id
    }
}

impl PartialEqSpecImpl for ClientId {
    open spec fn obeys_eq_spec() -> bool {
        true
    }

    open spec fn eq_spec(&self, other: &ClientId) -> bool {
        self@ == other@
    }
}

/// The identifier of a connection end, unique on its chain.
#[derive(Debug, Eq, Hash)]
pub struct ConnectionId {
    id: String,
}

impl View for ConnectionId {
    type V = Seq<char>;

    closed spec fn view(&self) -> Seq<char> {
        self.id@
    }
}

impl ConnectionId {
    /// The identifier that reads `id`.
    pub fn new(id: String) -> (r: ConnectionId)
        ensures
            r@ == id@,
    {
        ConnectionId { id }
    }

    /// The identifier as text.
    pub fn as_str(&self) -> (s: &str)
        ensures
            s@ == self@,
    {
        self.id.as_str()
    }
}

impl Clone for ConnectionId {
    fn clone(&self) -> (r: ConnectionId)
        ensures
            r == *self,
    {
        ConnectionId { id: self.id.clone() }
    }
}

impl PartialEq for ConnectionId {
    fn eq(&self, other: &ConnectionId) -> (r: bool) {
        self.id == other.id
    }
}

impl PartialEqSpecImpl for ConnectionId {
    open spec fn obeys_eq_spec() -> bool {
        true
    }

    open spec fn eq_spec(&self, other: &ConnectionId) -> bool {
        self@ == other@
    }
}

/// The identifier of a port.
#[derive(Debug, Eq, Hash)]
pub struct PortId {
    id: String,
}

impl View for PortId {
    type V = Seq<char>;

    closed spec fn view(&self) -> Seq<char> {
        self.id@
    }
}

impl PortId {
    /// The identifier that reads `id`.
    pub fn new(id: String) -> (r: PortId)
        ensures
            r@ == id@,
    {
        PortId { id }
    }

    /// The identifier as text.
    pub fn as_str(&self) -> (s: &str)
        ensures
            s@ == self@,
    {
        self.id.as_str()
    }
}

impl Clone for PortId {
    fn clone(&self) -> (r: PortId)
        ensures
            r == *self,
    {
        PortId { id: self.id.clone() }
    }
}

impl PartialEq for PortId {
    fn eq(&self, other: &PortId) -> (r: bool) {
        self.id == other.id
    }
}

impl PartialEqSpecImpl for PortId {
    open spec fn obeys_eq_spec() -> bool {
        true
    }

    open spec fn eq_spec(&self, other: &PortId) -> bool {
        self@ == other@
    }
}

/// The identifier of a channel end, unique under its port.
#[derive(Debug, Eq, Hash)]
pub struct ChannelId {
    id: String,
}

impl View for ChannelId {
    type V = Seq<char>;

    closed spec fn view(&self) -> Seq<char> {
        self.id@
    }
}

impl ChannelId {
    /// The identifier that reads `id`.
    pub fn new(id: String) -> (r: ChannelId)
        ensures
            r@ == id@,
    {
        ChannelId { id }
    }

    /// The identifier as text.
    pub fn as_str(&self) -> (s: &str)
        ensures
            s@ == self@,
    {
        self.id.as_str()
    }
}

impl Clone for ChannelId {
    fn clone(&self) -> (r: ChannelId)
        ensures
            r == *self,
    {
        ChannelId { id: self.id.clone() }
    }
}

impl PartialEq for ChannelId {
    fn eq(&self, other: &ChannelId) -> (r: bool) {
        self.id == other.id
    }
}

impl PartialEqSpecImpl for ChannelId {
    open spec fn obeys_eq_spec() -> bool {
        true
    }

    open spec fn eq_spec(&self, other: &ChannelId) -> bool {
        self@ == other@
    }
}

/// A block height: a revision number and a height within that revision.
/// Heights are ordered by revision first, then by height.
#[derive(Clone, Copy, Debug, PartialEq, Eq, Structural, Hash)]
pub struct Height {
    pub revision_number: u64,
    pub revision_height: u64,
}

impl Height {
    /// The height `revision_height` of the revision `revision_number`.
    pub fn new(revision_number: u64, revision_height: u64) -> (h: Height)
        ensures
            h.revision_number == revision_number,
            h.revision_height == revision_height,
    {
        Height { revision_number, revision_height }
    }

    /// The lexicographic order on heights.
    pub open spec fn spec_le(self, other: Height) -> bool {
        self.revision_number < other.revision_number || (self.revision_number
            == other.revision_number && self.revision_height <= other.revision_height)
    }

    /// Whether this height comes no later than `other`.
    pub fn le(&self, other: &Height) -> (r: bool)
        ensures
            r == self.spec_le(*other),
    {
        self.revision_number < other.revision_number || (self.revision_number
            == other.revision_number && self.revision_height <= other.revision_height)
    }
}

/// The order on heights is total: of two heights, one comes no later than the
/// other, and two heights that each come no later than the other are one.
pub proof fn height_order_total(a: Height, b: Height)
    ensures
        a.spec_le(b) || b.spec_le(a),
        a.spec_le(b) && b.spec_le(a) ==> a == b,
{
}

/// The order on heights is transitive.
pub proof fn height_order_transitive(a: Height, b: Height, c: Height)
    requires
        a.spec_le(b),
        b.spec_le(c),
    ensures
        a.spec_le(c),
{
}

} // verus!
