//! What the node tells the orchestrator at startup, and where.

use crate::config::{RegistrationConfig, ServerConfig};
use crate::json::{entry, number_of_u64, Json, JsonValue};
use crate::text::{chars_of, join, join3, text_views, trim, trimmed};
use vstd::prelude::*;
use vstd::string::StrSliceExecFns;

verus! {

/// What the node sends when it registers.
#[derive(Debug)]
pub struct RegisterPayload {
    pub node_id: String,
    pub hostname: String,
    pub ip_address: String,
    pub port: u16,
    pub capabilities: Vec<String>,
}

/// The seconds after which a registration that got no answer is given up.
pub const REGISTER_TIMEOUT_SECS: u64 = 10;

/// The seconds after which a deregistration that got no answer is given up.
pub const DEREGISTER_TIMEOUT_SECS: u64 = 5;

/// The documents of the given strings, in order.
pub open spec fn text_documents(items: Seq<Seq<char>>) -> Seq<JsonValue> {
    items.map_values(|s: Seq<char>| JsonValue::Str(s))
}

impl RegisterPayload {
    /// The document that is sent: the five fields under their names.
    pub open spec fn document(&self) -> JsonValue {
        JsonValue::Object(
            seq![
                ("node_id"@, JsonValue::Str(self.node_id@)),
                ("hostname"@, JsonValue::Str(self.hostname@)),
                ("ip_address"@, JsonValue::Str(self.ip_address@)),
                ("port"@, JsonValue::Number(number_of_u64(self.port as u64))),
                ("capabilities"@, JsonValue::Array(text_documents(text_views(self.capabilities@)))),
            ],
        )
    }

    /// The document that is sent.
    pub fn to_json(&self) -> (r: Json)
        ensures
            r@ == self.document(),
    {
        let mut capabilities: Vec<Json> = Vec::new();
        let mut i: usize = 0;
        while i < self.capabilities.len()
            invariant
                i <= self.capabilities.len(),
                capabilities.len() == i,
                forall|k: int|
                    0 <= k < i ==> capabilities@[k]@ == JsonValue::Str(self.capabilities@[k]@),
            decreases self.capabilities.len() - i,
        {
            capabilities.push(Json::text(self.capabilities[i].as_str()));
            i += 1;
        }
        let list = Json::array(capabilities);
        assert(list@->Array_0 =~= text_documents(text_views(self.capabilities@)));
        let r = Json::object(
            vec![
                entry("node_id", Json::text(self.node_id.as_str())),
                entry("hostname", Json::text(self.hostname.as_str())),
                entry("ip_address", Json::text(self.ip_address.as_str())),
                entry("port", Json::from_u64(self.port as u64)),
                entry("capabilities", list),
            ],
        );
        assert(r@->Object_0 =~= self.document()->Object_0);
        r
    }

    /// What the node registers with: its identity, the host's name or
    /// `unknown`, the address and port that it serves on, and the namespaces of
    /// its downstreams as its capabilities.
    pub fn for_node(
        registration: &RegistrationConfig,
        server: &ServerConfig,
        hostname: Option<String>,
        status: &Vec<(String, String)>,
    ) -> (r: RegisterPayload)
        ensures
            r.node_id@ == registration.node_id@,
            r.hostname@ == match hostname {
                Some(name) => name@,
                None => "unknown"@,
            },
            r.ip_address@ == server.bind@,
            r.port == server.port,
            r.capabilities@.len() == status@.len(),
            forall|i: int|
                0 <= i < status@.len() ==> (#[trigger] r.capabilities@[i])@ == status@[i].0@,
    {
        let mut capabilities: Vec<String> = Vec::new();
        let mut i: usize = 0;
        while i < status.len()
            invariant
                i <= status.len(),
                capabilities.len() == i,
                forall|k: int| 0 <= k < i ==> (#[trigger] capabilities@[k])@ == status@[k].0@,
            decreases status.len() - i,
        {
            capabilities.push(status[i].0.clone());
            i += 1;
        }
        RegisterPayload {
            node_id: registration.node_id.clone(),
            hostname: match hostname {
                Some(name) => name,
                None => "unknown".to_owned(),
            },
            ip_address: server.bind.clone(),
            port: server.port,
            capabilities,
        }
    }
}

/// The host's name, from what reading the file that holds it gave: the
/// contents without the white space around them.
pub fn hostname_from(read: Option<String>) -> (r: Option<String>)
    ensures
        match read {
            Some(contents) => r is Some && r->0@ == trimmed(contents@),
            None => r is None,
        },
{
    match read {
        Some(contents) => Some(trim(contents.as_str())),
        None => None,
    }
}

/// What a registration came to, from the answer's status and body: success
/// for a status of success, and else the failure that shows both.
pub fn registration_result(success: bool, status: &str, body: &str) -> (r: Result<(), String>)
    ensures
        success ==> r is Ok,
        !success ==> r is Err && r->Err_0@ == "Registration failed: "@ + status@ + " \u{2014} "@
            + body@,
{
    if success {
        Ok(())
    } else {
        let mut message = join3("Registration failed: ", status, " \u{2014} ");
        message.append(body);
        Err(message)
    }
}

/// The number of characters of `base` that are left when the slashes at its
/// end are taken off.
pub open spec fn trimmed_len(base: Seq<char>) -> int
    decreases base.len(),
{
    if base.len() > 0 && base.last() == '/' {
        trimmed_len(base.drop_last())
    } else {
        base.len() as int
    }
}

/// The URL of an endpoint of the orchestrator: the base URL without the
/// slashes at its end, then the path.
pub open spec fn endpoint(base: Seq<char>, path: Seq<char>) -> Seq<char> {
    base.take(trimmed_len(base)) + path
}

/// The URL of an endpoint of the orchestrator.
pub fn endpoint_url(base: &str, path: &str) -> (r: String)
    ensures
        r@ == endpoint(base@, path@),
{
    let chars = chars_of(base);
    let mut n: usize = chars.len();
    assert(base@.take(n as int) =~= base@);
    while n > 0 && chars[n - 1] == '/'
        invariant
            n <= chars.len(),
            chars@ == base@,
            trimmed_len(base@) == trimmed_len(base@.take(n as int)),
        decreases n,
    {
        assert(base@.take(n as int).drop_last() =~= base@.take(n - 1));
        n -= 1;
    }
    let trimmed = base.substring_char(0, n);
    assert(trimmed@ =~= base@.take(trimmed_len(base@)));
    join(trimmed, path)
}

/// The URL that the node registers at.
pub fn register_url(cortexd_url: &str) -> (r: String)
    ensures
        r@ == endpoint(cortexd_url@, "/api/v1/nodes/register"@),
{
    endpoint_url(cortexd_url, "/api/v1/nodes/register")
}

/// The URL that the node deregisters at.
pub fn deregister_url(cortexd_url: &str) -> (r: String)
    ensures
        r@ == endpoint(cortexd_url@, "/api/v1/nodes/deregister"@),
{
    endpoint_url(cortexd_url, "/api/v1/nodes/deregister")
}

} // verus!
