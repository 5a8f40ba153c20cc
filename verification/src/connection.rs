//! Under what the clients and pools of connections are kept, and when they are given up.
use vstd::prelude::*;

verus! {

/// Under what a client or a pool is kept: its connection, and a digest of the profile and the
/// credential that it was made with.
#[derive(Debug)]
pub struct ConnectionKey {
    pub connection: u128,
    pub identity: Vec<u8>,
}

/// What a [`ConnectionKey`] is.
pub struct ConnectionModel {
    pub connection: u128,
    pub identity: Seq<u8>,
}

impl View for ConnectionKey {
    type V = ConnectionModel;

    open spec fn view(&self) -> ConnectionModel {
        ConnectionModel { connection: self.connection, identity: self.identity@ }
    }
}

/// Whether what is kept under a key was made for the same connection with another profile or
/// credential.
pub open spec fn outdated(kept: ConnectionModel, key: ConnectionModel) -> bool {
    kept.connection == key.connection && kept.identity != key.identity
}

/// Whether two digests are the same.
fn same_identity(left: &Vec<u8>, right: &Vec<u8>) -> (result: bool)
    ensures
        result == (left@ == right@),
{
    if left.len() != right.len() {
        return false;
    }
    let mut i: usize = 0;
    while i < left.len()
        invariant
            i <= left@.len(),
            left@.len() == right@.len(),
            forall|j: int| 0 <= j < i ==> left@[j] == right@[j],
        decreases left@.len() - i,
    {
        if left[i] != right[i] {
            return false;
        }
        i = i + 1;
    }
    assert(left@ =~= right@);
    true
}

impl ConnectionKey {
    /// Whether what is kept under this key is given up for something new under another.
    pub fn is_outdated(&self, key: &ConnectionKey) -> (result: bool)
        ensures
            result == outdated(self@, key@),
    {
        self.connection == key.connection && !same_identity(&self.identity, &key.identity)
    }

    /// Whether what is kept under this key belongs to a connection.
    pub fn belongs_to(&self, connection: u128) -> (result: bool)
        ensures
            result == (self@.connection == connection),
    {
        self.connection == connection
    }
}

/// What is kept once something new is kept under a key.
pub open spec fn kept_with(kept: Set<ConnectionModel>, key: ConnectionModel) -> Set<
    ConnectionModel,
> {
    kept.filter(|other: ConnectionModel| !outdated(other, key)).insert(key)
}

/// What is kept once a connection is given up.
pub open spec fn kept_without(kept: Set<ConnectionModel>, connection: u128) -> Set<
    ConnectionModel,
> {
    kept.filter(|other: ConnectionModel| other.connection != connection)
}

/// Whether what is kept for a connection was all made with one profile and credential.
pub open spec fn one_identity(kept: Set<ConnectionModel>) -> bool {
    forall|a: ConnectionModel, b: ConnectionModel|
        #![trigger kept.contains(a), kept.contains(b)]
        kept.contains(a) && kept.contains(b) && a.connection == b.connection ==> a.identity
            == b.identity
}

/// Nothing that was made with an earlier profile or credential of a connection is kept beside what
/// is new, and other connections are not touched.
pub proof fn lemma_outdated_connections_are_given_up(
    kept: Set<ConnectionModel>,
    key: ConnectionModel,
)
    requires
        one_identity(kept),
    ensures
        one_identity(kept_with(kept, key)),
        kept_with(kept, key).contains(key),
        forall|other: ConnectionModel|
            other.connection != key.connection ==> (#[trigger] kept_with(kept, key).contains(other)
                == kept.contains(other)),
{
    let after = kept_with(kept, key);
    assert forall|a: ConnectionModel, b: ConnectionModel|
        #![trigger after.contains(a), after.contains(b)]
        after.contains(a) && after.contains(b) && a.connection == b.connection implies a.identity
        == b.identity by {
        if a != key && b != key {
            assert(kept.contains(a) && kept.contains(b));
        }
    }
}

/// Nothing of a connection that is given up stays, and other connections are not touched.
pub proof fn lemma_given_up_connections_are_gone(kept: Set<ConnectionModel>, connection: u128)
    ensures
        forall|other: ConnectionModel|
            #[trigger]
            kept_without(kept, connection).contains(other) == (kept.contains(other)
                && other.connection != connection),
{
}

} // verus!
