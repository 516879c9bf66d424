//! The control interface: the only way the subscriber registry changes.
use vstd::prelude::*;

use crate::link::{LinkDefinition, LinkView};
use crate::metrics::{is_hyphenated_uuid, AgentIdentity, IdentityView};
use crate::registry::{represents, SubscriberRegistry};
use crate::sampler::{plan_tick, TickAction};

verus! {

/// The agent's state: who is linked, and the identity its events carry.
pub struct SysmonitorBasicProvider {
    linked_actors: SubscriberRegistry,
    identity: AgentIdentity,
}

impl SysmonitorBasicProvider {
    pub closed spec fn wf(&self) -> bool {
        self.linked_actors.wf()
    }

    /// The linked subscribers, by actor id.
    pub closed spec fn subscribers(&self) -> Map<Seq<char>, LinkView> {
        self.linked_actors@
    }

    /// The identity stamped on every event.
    pub closed spec fn identity_view(&self) -> IdentityView {
        self.identity@
    }

    /// A provider with no links, for instance `id` on the host named
    /// `hostname`, or under a fresh UUID where the host name is not text.
    pub fn new(id: String, hostname: Option<String>) -> (r: SysmonitorBasicProvider)
        ensures
            r.wf(),
            r.subscribers() == Map::<Seq<char>, LinkView>::empty(),
            r.identity_view().instance_id == id@,
            match hostname {
                Some(h) => r.identity_view().hostname == h@,
                None => is_hyphenated_uuid(r.identity_view().hostname),
            },
    {
        SysmonitorBasicProvider {
            linked_actors: SubscriberRegistry::new(),
            identity: AgentIdentity::new(id, hostname),
        }
    }

    /// Records a new link, or replaces the earlier link of the same actor.
    /// Every link is approved.
    pub fn put_link(&mut self, ld: LinkDefinition) -> (r: bool)
        requires
            old(self).wf(),
        ensures
            r,
            final(self).wf(),
            final(self).subscribers() == old(self).subscribers().insert(ld.actor_id@, ld@),
            final(self).identity_view() == old(self).identity_view(),
    {
        let actor_id = ld.actor_id.clone();
        self.linked_actors.insert(actor_id, ld);
        true
    }

    /// Forgets the link of `actor_id`, if it has one.
    pub fn delete_link(&mut self, actor_id: &str)
        requires
            old(self).wf(),
        ensures
            final(self).wf(),
            final(self).subscribers() == old(self).subscribers().remove(actor_id@),
            final(self).identity_view() == old(self).identity_view(),
    {
        self.linked_actors.remove(actor_id);
    }

    /// What a timer tick leads to, given the current links.
    pub fn tick(&self) -> (r: TickAction)
        requires
            self.wf(),
        ensures
            match r {
                TickAction::Skip => self.subscribers() == Map::<Seq<char>, LinkView>::empty(),
                TickAction::Sample(s) => self.subscribers() != Map::<Seq<char>, LinkView>::empty()
                    && represents(s@, self.subscribers()),
            },
    {
        plan_tick(&self.linked_actors)
    }

    /// The identity stamped on every event.
    pub fn identity(&self) -> (r: &AgentIdentity)
        ensures
            r@ == self.identity_view(),
    {
        &self.identity
    }
}

} // verus!
