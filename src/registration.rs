use vstd::prelude::*;
use vstd::string::StringExecFns;

verus! {

/// What `serde_json::to_string` writes for a string: the JSON string literal,
/// quotes and escapes included.
pub uninterp spec fn json_quoted(s: Seq<char>) -> Seq<char>;

/// What `serde_json::from_slice` into a `serde_json::Value`, followed by a
/// member lookup and `Value::as_str`, yields: the string held by member `key`
/// of the JSON object in `body`, or nothing when `body` is no JSON object or
/// that member is absent or not a string.
pub uninterp spec fn json_str_member(body: Seq<u8>, key: Seq<char>) -> Option<Seq<char>>;

/// Relies on `serde_json::to_string` on a `str`: it writes the JSON string
/// literal. Serialising a string into memory cannot fail.
#[verifier::external_body]
fn quote_json(s: &str) -> (r: String)
    ensures
        r@ == json_quoted(s@),
{
    serde_json::to_string(s).unwrap_or_default()
}

/// Relies on `serde_json::from_slice::<serde_json::Value>`, `Value::get` with a
/// string key and `Value::as_str`: the string member `key` of the object in
/// `body`.
#[verifier::external_body]
fn string_member(body: &[u8], key: &str) -> (r: Option<String>)
    ensures
        match r {
            Some(s) => json_str_member(body@, key@) == Some(s@),
            None => json_str_member(body@, key@) is None,
        },
{
    match serde_json::from_slice::<serde_json::Value>(body) {
        Ok(v) => v.get(key).and_then(serde_json::Value::as_str).map(String::from),
        Err(_) => None,
    }
}

/// The storage parameters that registration hands back.
pub struct RegisterResponse {
    pub mongo_address: String,
    pub mongo_database: String,
    pub mongo_collection: String,
    pub qdrant_address: String,
}

impl View for RegisterResponse {
    type V = (Seq<char>, Seq<char>, Seq<char>, Seq<char>);

    open spec fn view(&self) -> Self::V {
        (self.mongo_address@, self.mongo_database@, self.mongo_collection@, self.qdrant_address@)
    }
}

/// The two registration schemas that backends speak.
pub enum RegistrationSchema {
    /// The request names the module; the answer's members are
    /// `mongoAddress`, `mongoDatabase`, `mongoCollection`, `qdrantAddress`.
    NameOnly,
    /// The request names the module and the address it can be called back on;
    /// the answer's members are `mongo_address`, `mongo_database`,
    /// `mongo_collection`, `qdrant_address`.
    NameAndAddress { address: String },
}

/// Why registration failed.
pub enum RegistrationError {
    /// The backend answered with a status other than 200.
    Status { status: u16 },
    /// The answer's body does not hold the four storage parameters as strings.
    MalformedBody,
}

/// The member names of the answer, in the order address, database,
/// collection, vector-index address.
pub open spec fn member_keys(schema: RegistrationSchema) -> (Seq<char>, Seq<char>, Seq<char>, Seq<char>) {
    match schema {
        RegistrationSchema::NameOnly => (
            "mongoAddress"@,
            "mongoDatabase"@,
            "mongoCollection"@,
            "qdrantAddress"@,
        ),
        RegistrationSchema::NameAndAddress { .. } => (
            "mongo_address"@,
            "mongo_database"@,
            "mongo_collection"@,
            "qdrant_address"@,
        ),
    }
}

/// The storage parameters found in `body` under `keys`, if all four are there.
pub open spec fn decoded(body: Seq<u8>, keys: (Seq<char>, Seq<char>, Seq<char>, Seq<char>)) -> Option<
    (Seq<char>, Seq<char>, Seq<char>, Seq<char>),
> {
    match (
        json_str_member(body, keys.0),
        json_str_member(body, keys.1),
        json_str_member(body, keys.2),
        json_str_member(body, keys.3),
    ) {
        (Some(a), Some(d), Some(c), Some(q)) => Some((a, d, c, q)),
        _ => None,
    }
}

/// The registration request body for `name` under `schema`.
pub open spec fn register_body_spec(name: Seq<char>, schema: RegistrationSchema) -> Seq<char> {
    match schema {
        RegistrationSchema::NameOnly => "{\"name\":"@ + json_quoted(name) + "}"@,
        RegistrationSchema::NameAndAddress { address } => "{\"name\":"@ + json_quoted(name)
            + ",\"address\":"@ + json_quoted(address@) + "}"@,
    }
}

/// The registration endpoint of a backend.
pub fn register_url(backend: &str) -> (r: String)
    ensures
        r@ == backend@ + "/modules/output/register"@,
{
    String::from_str(backend).concat("/modules/output/register")
}

/// The deregistration endpoint of a backend.
pub fn unregister_url(backend: &str) -> (r: String)
    ensures
        r@ == backend@ + "/modules/output/unregister"@,
{
    String::from_str(backend).concat("/modules/output/unregister")
}

/// The JSON body of a registration request.
pub fn register_body(name: &str, schema: &RegistrationSchema) -> (r: String)
    ensures
        r@ == register_body_spec(name@, *schema),
{
    let mut body = String::from_str("{\"name\":");
    let quoted = quote_json(name);
    body.append(quoted.as_str());
    match schema {
        RegistrationSchema::NameOnly => {},
        RegistrationSchema::NameAndAddress { address } => {
            body.append(",\"address\":");
            let quoted_address = quote_json(address.as_str());
            body.append(quoted_address.as_str());
        },
    }
    body.append("}");
    body
}

/// The JSON body of a deregistration request: an empty object.
pub fn unregister_body() -> (r: String)
    ensures
        r@ == "{}"@,
{
    String::from_str("{}")
}

/// Builds the storage parameters from the four members looked up in an
/// answer; a missing one makes the answer malformed.
pub fn config_from_members(
    address: Option<String>,
    database: Option<String>,
    collection: Option<String>,
    qdrant: Option<String>,
) -> (r: Result<RegisterResponse, RegistrationError>)
    ensures
        match (address, database, collection, qdrant) {
            (Some(a), Some(d), Some(c), Some(q)) => r matches Ok(cfg) && cfg@ == (a@, d@, c@, q@),
            _ => r matches Err(RegistrationError::MalformedBody),
        },
{
    match (address, database, collection, qdrant) {
        (Some(a), Some(d), Some(c), Some(q)) => Ok(
            RegisterResponse {
                mongo_address: a,
                mongo_database: d,
                mongo_collection: c,
                qdrant_address: q,
            },
        ),
        _ => Err(RegistrationError::MalformedBody),
    }
}

/// Decodes the storage parameters from an answer's body under `schema`.
pub fn decode_register_response(body: &[u8], schema: &RegistrationSchema) -> (r: Result<
    RegisterResponse,
    RegistrationError,
>)
    ensures
        match decoded(body@, member_keys(*schema)) {
            Some(v) => r matches Ok(cfg) && cfg@ == v,
            None => r matches Err(RegistrationError::MalformedBody),
        },
{
    let (ka, kd, kc, kq) = match schema {
        RegistrationSchema::NameOnly => (
            "mongoAddress",
            "mongoDatabase",
            "mongoCollection",
            "qdrantAddress",
        ),
        RegistrationSchema::NameAndAddress { .. } => (
            "mongo_address",
            "mongo_database",
            "mongo_collection",
            "qdrant_address",
        ),
    };
    config_from_members(
        string_member(body, ka),
        string_member(body, kd),
        string_member(body, kc),
        string_member(body, kq),
    )
}

/// Decides the outcome of a registration from the backend's status and
/// body: anything but 200 fails with that status, otherwise the body must
/// hold the storage parameters.
pub fn registration_outcome(status: u16, body: &[u8], schema: &RegistrationSchema) -> (r: Result<
    RegisterResponse,
    RegistrationError,
>)
    ensures
        status != 200 ==> (r matches Err(RegistrationError::Status { status: s }) && s == status),
        status == 200 ==> match decoded(body@, member_keys(*schema)) {
            Some(v) => r matches Ok(cfg) && cfg@ == v,
            None => r matches Err(RegistrationError::MalformedBody),
        },
{
    if status != 200 {
        Err(RegistrationError::Status { status })
    } else {
        decode_register_response(body, schema)
    }
}

} // verus!
