use vstd::prelude::*;

use crate::table::MacTable;

verus! {

/// What the gateway reports of one client.
#[derive(Debug, PartialEq, Eq)]
pub struct RawClientData {
    pub mac: String,
    pub ip: String,
    pub state: String,
    pub clientif: String,
    pub session_start: String,
    pub session_end: String,
    pub last_active: String,
    pub download_quota: Option<String>,
    pub upload_quota: Option<String>,
}

/// What the gateway reports of all its clients: their number as it wrote it,
/// and each client by MAC address.
pub struct RawClientDataCollection {
    client_list_length: String,
    clients: MacTable<RawClientData>,
}

impl RawClientDataCollection {
    /// The clients of the report, by MAC address.
    pub closed spec fn client_map(&self) -> Map<Seq<char>, RawClientData> {
        self.clients@
    }

    /// The number of clients as the report wrote it.
    pub closed spec fn list_length(&self) -> Seq<char> {
        self.client_list_length@
    }

    /// A report of `clients`, whose number the gateway wrote as `client_list_length`.
    pub fn new(client_list_length: String, clients: MacTable<RawClientData>) -> (r: Self)
        ensures
            r.list_length() == client_list_length@,
            r.client_map() == clients@,
    {
        RawClientDataCollection { client_list_length, clients }
    }

    /// The clients of the report, by MAC address.
    pub fn clients(&self) -> (r: &MacTable<RawClientData>)
        ensures
            r@ == self.client_map(),
    {
        &self.clients
    }

    /// The number of clients as the report wrote it.
    pub fn client_list_length(&self) -> (r: &String)
        ensures
            r@ == self.list_length(),
    {
        &self.client_list_length
    }
}

/// A client as the store holds it.
#[derive(Debug, PartialEq, Eq)]
pub struct ClientRecord {
    pub id: i32,
    pub mac: String,
    pub credits: i32,
    pub remaining_seconds: i32,
}

/// What a client is shown of its own account.
#[derive(Debug, PartialEq, Eq)]
pub struct ClientData {
    pub id: i32,
    pub mac: String,
    pub credits: i32,
    pub remaining_seconds: i32,
    pub active: bool,
}

/// A redeemable code as an administrator is shown it.
#[derive(Debug, PartialEq, Eq)]
pub struct CodeData {
    pub id: i32,
    pub code: String,
    pub kind: String,
    pub units: i32,
}

/// The body of a request to redeem a code.
#[derive(Debug, PartialEq, Eq)]
pub struct CodeJSONBody {
    code: String,
}

impl CodeJSONBody {
    /// The code to redeem.
    pub closed spec fn code_text(&self) -> Seq<char> {
        self.code@
    }

    /// A request to redeem `code`.
    pub fn new(code: String) -> (r: Self)
        ensures
            r.code_text() == code@,
    {
        CodeJSONBody { code }
    }

    /// The code to redeem.
    pub fn code(&self) -> (r: &String)
        ensures
            r@ == self.code_text(),
    {
        &self.code
    }
}

/// A time plan as the store holds it: its price in credits and the seconds
/// that it gives.
#[derive(Debug, PartialEq, Eq)]
pub struct PlanRecord {
    pub id: i32,
    pub credit_cost: i32,
    pub seconds_given: i32,
}

/// A redeemable code as the store holds it.
#[derive(Debug, PartialEq, Eq)]
pub struct RedeemableCode {
    pub id: i32,
    pub code: Vec<u8>,
    pub kind: String,
    pub units: i32,
}

} // verus!
