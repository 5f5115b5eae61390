//! What an APNs push must contain, decided here; an unverified transport
//! turns the description into the provider's request and sends it.

use vstd::prelude::*;
use vstd::string::*;

verus! {

/// A fully decided push: every header and payload choice the dispatcher
/// makes, as plain values. The command and its parameters travel under the
/// broker's custom payload key.
#[derive(Debug)]
pub struct PushSpec {
    pub device_token: String,
    pub alert_body: Option<String>,
    pub category: Option<String>,
    pub content_available: bool,
    pub push_type: String,
    pub priority_high: bool,
    pub topic: String,
    pub command: String,
    pub params: String,
}

/// The alert-style push that delivers a command to an offline device:
/// standard alert body and category, high priority, addressed to the
/// configured bundle.
pub fn alarm_push_spec(bundle_id: &String, token: &String, command: String, params: String) -> (r:
    PushSpec)
    ensures
        r.device_token@ == token@,
        r.alert_body matches Some(b) && b@ == "Alarm triggered"@,
        r.category matches Some(c) && c@ == "alarm"@,
        r.content_available,
        r.push_type@ == "alert"@,
        r.priority_high,
        r.topic@ == bundle_id@,
        r.command@ == command@,
        r.params@ == params@,
{
    PushSpec {
        device_token: token.clone(),
        alert_body: Some(String::from_str("Alarm triggered")),
        category: Some(String::from_str("alarm")),
        content_available: true,
        push_type: String::from_str("alert"),
        priority_high: true,
        topic: bundle_id.clone(),
        command: command,
        params: params,
    }
}

/// The VoIP push: content-available only, high priority, addressed to the
/// bundle's voip topic.
pub fn voip_push_spec(bundle_id: &String, token: &String, command: String, params: String) -> (r:
    PushSpec)
    ensures
        r.device_token@ == token@,
        r.alert_body is None,
        r.category is None,
        r.content_available,
        r.push_type@ == "voip"@,
        r.priority_high,
        r.topic@ == bundle_id@ + ".voip"@,
        r.command@ == command@,
        r.params@ == params@,
{
    let mut topic = bundle_id.clone();
    topic.append(".voip");
    PushSpec {
        device_token: token.clone(),
        alert_body: None,
        category: None,
        content_available: true,
        push_type: String::from_str("voip"),
        priority_high: true,
        topic: topic,
        command: command,
        params: params,
    }
}

} // verus!
