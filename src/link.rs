//! The routing information kept for one linked subscriber.
use vstd::prelude::*;

verus! {

/// What a `LinkDefinition` holds, as mathematical values.
pub struct LinkView {
    pub actor_id: Seq<char>,
    pub provider_id: Seq<char>,
    pub link_name: Seq<char>,
    pub contract_id: Seq<char>,
    pub values: Seq<(Seq<char>, Seq<char>)>,
}

/// The settings of a link, each key and value as text.
pub open spec fn settings_view(values: Seq<(String, String)>) -> Seq<(Seq<char>, Seq<char>)> {
    values.map_values(|p: (String, String)| (p.0@, p.1@))
}

/// A subscriber descriptor: the link that connects one actor to this agent,
/// with everything the transport needs to reach that actor.
#[derive(Debug)]
pub struct LinkDefinition {
    pub actor_id: String,
    pub provider_id: String,
    pub link_name: String,
    pub contract_id: String,
    pub values: Vec<(String, String)>,
}

impl View for LinkDefinition {
    type V = LinkView;

    open spec fn view(&self) -> LinkView {
        LinkView {
            actor_id: self.actor_id@,
            provider_id: self.provider_id@,
            link_name: self.link_name@,
            contract_id: self.contract_id@,
            values: settings_view(self.values@),
        }
    }
}

impl LinkDefinition {
    /// An independent copy of this link, equal to it in every field.
    pub fn duplicate(&self) -> (r: LinkDefinition)
        ensures
            r@ == self@,
    {
        let mut values: Vec<(String, String)> = Vec::new();
        let n: usize = self.values.len();
        let mut i: usize = 0;
        while i < n
            invariant
                n == self.values@.len(),
                i <= n,
                values@.len() == i,
                forall|k: int| 0 <= k < i ==> #[trigger] values@[k] == self.values@[k],
            decreases n - i,
        {
            let (key, value) = &self.values[i];
            values.push((key.clone(), value.clone()));
            i = i + 1;
        }
        assert(values@ =~= self.values@);
        LinkDefinition {
            actor_id: self.actor_id.clone(),
            provider_id: self.provider_id.clone(),
            link_name: self.link_name.clone(),
            contract_id: self.contract_id.clone(),
            values,
        }
    }
}

} // verus!
