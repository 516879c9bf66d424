//! Sampled host metrics, the agent's identity, and the event that carries a
//! sample to a subscriber.
use vstd::prelude::*;

verus! {

/// One sample of host metrics; a field is `None` where the platform could not
/// provide it. The CPU usage percentage is kept as the bit pattern of its
/// 32-bit float.
#[derive(Clone, Copy, Debug, PartialEq, Eq, Structural)]
pub struct SystemMetrics {
    pub num_cpu: Option<u32>,
    pub cpu_usage_percentage_bits: Option<u32>,
    pub memory: Option<u64>,
    pub free_memory: Option<u64>,
    pub used_memory: Option<u64>,
    pub swap: Option<u64>,
    pub used_swap: Option<u64>,
}

/// Whether `c` is a lowercase hexadecimal digit.
pub open spec fn is_lower_hex_digit(c: char) -> bool {
    ('0' <= c && c <= '9') || ('a' <= c && c <= 'f')
}

/// The hyphenated text form of a UUID: 36 characters, hyphens at positions 8,
/// 13, 18 and 23, lowercase hexadecimal digits everywhere else.
pub open spec fn is_hyphenated_uuid(s: Seq<char>) -> bool {
    &&& s.len() == 36
    &&& forall|i: int|
        0 <= i < 36 ==> if i == 8 || i == 13 || i == 18 || i == 23 {
            s[i] == '-'
        } else {
            is_lower_hex_digit(#[trigger] s[i])
        }
}

/// Relies on `uuid::Uuid::new_v4` for a random identifier and on its
/// `Display`, which writes the lowercase hyphenated form.
#[verifier::external_body]
fn fresh_uuid() -> (r: String)
    ensures
        is_hyphenated_uuid(r@),
{
    uuid::Uuid::new_v4().to_string()
}

/// The identity stamped on every event: the process instance and the host.
pub struct AgentIdentity {
    pub instance_id: String,
    pub hostname: String,
}

pub struct IdentityView {
    pub instance_id: Seq<char>,
    pub hostname: Seq<char>,
}

impl View for AgentIdentity {
    type V = IdentityView;

    open spec fn view(&self) -> IdentityView {
        IdentityView { instance_id: self.instance_id@, hostname: self.hostname@ }
    }
}

impl AgentIdentity {
    /// The identity of instance `instance_id` on the host named `hostname`;
    /// where the host's name could not be read as text, a freshly generated
    /// UUID stands in for it.
    pub fn new(instance_id: String, hostname: Option<String>) -> (r: AgentIdentity)
        ensures
            r.instance_id@ == instance_id@,
            match hostname {
                Some(h) => r.hostname@ == h@,
                None => is_hyphenated_uuid(r.hostname@),
            },
    {
        let hostname = match hostname {
            Some(h) => h,
            None => fresh_uuid(),
        };
        AgentIdentity { instance_id, hostname }
    }

    /// An independent copy of this identity.
    pub fn duplicate(&self) -> (r: AgentIdentity)
        ensures
            r@ == self@,
    {
        AgentIdentity { instance_id: self.instance_id.clone(), hostname: self.hostname.clone() }
    }
}

/// The envelope that carries one sample to one subscriber.
#[derive(Debug)]
pub struct MetricEvent {
    pub uuid: String,
    pub hostname: String,
    pub system: Option<SystemMetrics>,
    pub extra_data: Option<Vec<(String, String)>>,
}

pub struct EventView {
    pub uuid: Seq<char>,
    pub hostname: Seq<char>,
    pub system: Option<SystemMetrics>,
    pub extra_data: Option<Seq<(Seq<char>, Seq<char>)>>,
}

impl View for MetricEvent {
    type V = EventView;

    open spec fn view(&self) -> EventView {
        EventView {
            uuid: self.uuid@,
            hostname: self.hostname@,
            system: self.system,
            extra_data: match self.extra_data {
                Some(v) => Some(crate::link::settings_view(v@)),
                None => None,
            },
        }
    }
}

/// The event that a sample `m` taken by the agent `id` becomes: the agent's
/// instance id and host name, the sample itself, and no extra data.
pub open spec fn event_for(id: IdentityView, m: SystemMetrics) -> EventView {
    EventView { uuid: id.instance_id, hostname: id.hostname, system: Some(m), extra_data: None }
}

impl MetricEvent {
    /// The event for sample `metrics` taken by the agent `identity`.
    pub fn new(identity: &AgentIdentity, metrics: SystemMetrics) -> (r: MetricEvent)
        ensures
            r@ == event_for(identity@, metrics),
    {
        MetricEvent {
            uuid: identity.instance_id.clone(),
            hostname: identity.hostname.clone(),
            system: Some(metrics),
            extra_data: None,
        }
    }
}

} // verus!
