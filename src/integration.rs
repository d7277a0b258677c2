use vstd::prelude::*;

verus! {

/// A custom action for an MQTT integration: a JSON document to publish,
/// retained, on a topic.
#[derive(Debug)]
pub struct CustomMqttAction {
    pub topic: String,
    pub json: String,
}

} // verus!
