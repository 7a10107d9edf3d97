//! Configuration applier: the state transitions of the interface's resolver
//! configuration.
//!
//! The configured state is an ordered sequence of addresses; the empty
//! sequence denotes automatic (DHCP) mode.  Applying an address replaces any
//! prior manual configuration with exactly that one address, and resetting
//! returns the interface to automatic mode — both regardless of the prior
//! state, which is what makes them idempotent.  The operating-system
//! mechanism applies changes asynchronously, so the caller of either mutation
//! waits a bounded settle delay before it treats the configuration as
//! observable; the settled state is the one these transitions describe.

use vstd::prelude::*;

verus! {

/// State after `apply(address)`: exactly the one given address, whatever was
/// configured before.
pub open spec fn apply_transition(state: Seq<Seq<char>>, address: Seq<char>) -> Seq<Seq<char>> {
    seq![address]
}

/// State after `resetToAutomatic()`: no manual resolvers, whatever was
/// configured before.
pub open spec fn reset_transition(state: Seq<Seq<char>>) -> Seq<Seq<char>> {
    Seq::empty()
}

/// What `read()` observes of a settled state.
pub open spec fn read_view(state: Seq<Seq<char>>) -> Seq<Seq<char>> {
    state
}

/// `apply(X)` followed by `read()` yields exactly `[X]`, independent of the
/// prior state.
pub proof fn lemma_apply_then_read(state: Seq<Seq<char>>, address: Seq<char>)
    ensures
        read_view(apply_transition(state, address)) == seq![address],
{
}

/// `resetToAutomatic()` followed by `read()` yields the empty sequence,
/// independent of the prior state.
pub proof fn lemma_reset_then_read(state: Seq<Seq<char>>)
    ensures
        read_view(reset_transition(state)) == Seq::<Seq<char>>::empty(),
{
}

/// Applying the same address twice is idempotent: the state read after the
/// second `apply(X)` equals the state read after the first, and both are
/// `[X]`.
pub proof fn lemma_apply_idempotent(state: Seq<Seq<char>>, address: Seq<char>)
    ensures
        apply_transition(apply_transition(state, address), address) == apply_transition(
            state,
            address,
        ),
        read_view(apply_transition(apply_transition(state, address), address)) == read_view(
            apply_transition(state, address),
        ),
{
}

/// Resetting twice is idempotent as well.
pub proof fn lemma_reset_idempotent(state: Seq<Seq<char>>)
    ensures
        reset_transition(reset_transition(state)) == reset_transition(state),
{
}

/// In-memory model of one interface's resolver configuration.  It realises
/// the transitions above exactly, and stands in for the operating-system
/// configuration in deterministic tests of the pipeline.
pub struct ResolverConfigModel {
    servers: Vec<String>,
}

impl View for ResolverConfigModel {
    type V = Seq<Seq<char>>;

    closed spec fn view(&self) -> Seq<Seq<char>> {
        self.servers.deep_view()
    }
}

impl ResolverConfigModel {
    /// A configuration in automatic (DHCP) mode.
    pub fn new() -> (c: Self)
        ensures
            c@ == Seq::<Seq<char>>::empty(),
    {
        let c = ResolverConfigModel { servers: Vec::new() };
        proof {
            assert(c@ =~= Seq::<Seq<char>>::empty());
        }
        c
    }

    /// A configuration holding the given manual resolver list, for starting a
    /// run from an arbitrary prior state.
    pub fn with_servers(servers: Vec<String>) -> (c: Self)
        ensures
            c@ == servers.deep_view(),
    {
        ResolverConfigModel { servers }
    }

    /// Read the configured addresses, in order; empty means automatic mode.
    pub fn read(&self) -> (r: Vec<String>)
        ensures
            r.deep_view() == read_view(self@),
    {
        let mut r: Vec<String> = Vec::new();
        let mut i: usize = 0;
        while i < self.servers.len()
            invariant
                i <= self.servers.len(),
                r@.len() == i,
                forall|j: int| 0 <= j < i ==> r@[j]@ == self.servers@[j]@,
            decreases self.servers.len() - i,
        {
            r.push(self.servers[i].clone());
            i += 1;
        }
        proof {
            assert(r.deep_view() =~= read_view(self@));
        }
        r
    }

    /// Set the resolver list to the single given address, replacing any prior
    /// manual configuration.
    pub fn apply(&mut self, address: String)
        ensures
            final(self)@ == apply_transition(old(self)@, address@),
    {
        let mut servers: Vec<String> = Vec::new();
        servers.push(address);
        self.servers = servers;
        proof {
            assert(self@ =~= apply_transition(old(self)@, address@));
        }
    }

    /// Clear the manual resolver configuration, returning the interface to
    /// automatic (DHCP) mode.
    pub fn reset_to_automatic(&mut self)
        ensures
            final(self)@ == reset_transition(old(self)@),
    {
        self.servers = Vec::new();
        proof {
            assert(self@ =~= reset_transition(old(self)@));
        }
    }
}

} // verus!
