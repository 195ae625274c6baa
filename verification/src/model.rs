use vstd::prelude::*;

verus! {

/// A record from the source directory. Email may be absent; identity is not
/// unique by email at the source.
pub struct RemoteCustomer {
    pub email_address: Option<String>,
    pub given_name: Option<String>,
    pub family_name: Option<String>,
    pub email_unsubscribed: bool,
}

/// The mathematical model of a `RemoteCustomer`: each text field as a
/// sequence of characters.
pub struct CustomerModel {
    pub email_address: Option<Seq<char>>,
    pub given_name: Option<Seq<char>>,
    pub family_name: Option<Seq<char>>,
    pub email_unsubscribed: bool,
}

impl View for RemoteCustomer {
    type V = CustomerModel;

    open spec fn view(&self) -> CustomerModel {
        CustomerModel {
            email_address: match self.email_address {
                Some(e) => Some(e@),
                None => None,
            },
            given_name: match self.given_name {
                Some(g) => Some(g@),
                None => None,
            },
            family_name: match self.family_name {
                Some(f) => Some(f@),
                None => None,
            },
            email_unsubscribed: self.email_unsubscribed,
        }
    }
}

/// The reconciled, destination-bound record. The email keeps its original
/// casing; only comparison is case-insensitive. `attributes` is a reserved
/// placeholder and is always empty.
pub struct Subscriber {
    pub email: String,
    pub name: String,
    pub attributes: String,
    pub subscribed: bool,
}

/// The mathematical model of a `Subscriber`.
pub struct SubscriberModel {
    pub email: Seq<char>,
    pub name: Seq<char>,
    pub attributes: Seq<char>,
    pub subscribed: bool,
}

impl View for Subscriber {
    type V = SubscriberModel;

    open spec fn view(&self) -> SubscriberModel {
        SubscriberModel {
            email: self.email@,
            name: self.name@,
            attributes: self.attributes@,
            subscribed: self.subscribed,
        }
    }
}

/// Operator-supplied settings, loaded once at process start.
pub struct RunConfig {
    /// How often a sync run starts, in seconds.
    pub run_every: u64,
    /// Bare hostname of the destination instance, no scheme or path.
    pub listmonk_domain: String,
    /// IDs of the destination lists the subscribers are imported into.
    pub listmonk_list_ids: Vec<u64>,
    /// Whether imported subscribers are marked as confirmed.
    pub listmonk_confirmation: bool,
    /// Whether existing subscribers are overwritten.
    pub listmonk_overwrite: bool,
}

/// Source API token and destination basic-auth credentials, loaded once at
/// process start.
pub struct Credentials {
    pub square_api_token: String,
    pub listmonk_username: String,
    pub listmonk_password: String,
}

/// A failure of one sync run. Recoverable: the run is reported as failed and
/// the process goes on to the next scheduled tick.
pub enum SyncError {
    /// The network transport failed, or the source returned an error status.
    Transport,
    /// A request was rejected for bad credentials.
    Auth,
    /// A response body could not be decoded.
    Decode,
    /// The destination answered an upload with a non-2xx status.
    ServerRejected(u16),
}

impl SyncError {
    /// A short description, for the run report.
    pub fn describe(&self) -> (r: &'static str)
        ensures
            r@ == self.spec_describe(),
    {
        match self {
            SyncError::Transport => "transport failure",
            SyncError::Auth => "authentication rejected",
            SyncError::Decode => "malformed response body",
            SyncError::ServerRejected(_) => "destination rejected the upload",
        }
    }

    pub open spec fn spec_describe(&self) -> Seq<char> {
        match self {
            SyncError::Transport => "transport failure"@,
            SyncError::Auth => "authentication rejected"@,
            SyncError::Decode => "malformed response body"@,
            SyncError::ServerRejected(_) => "destination rejected the upload"@,
        }
    }
}

/// Classifies a source page response status: the 2xx range succeeds, a
/// credential rejection is an authentication failure, any other status is a
/// transport failure. Any single page failure aborts the whole fetch for the
/// run.
pub fn classify_fetch_status(status: u16) -> (r: Result<(), SyncError>)
    ensures
        r is Ok <==> 200 <= status < 300,
        r is Err ==> r->Err_0 == if status == 401 || status == 403 {
            SyncError::Auth
        } else {
            SyncError::Transport
        },
{
    if 200 <= status && status < 300 {
        Ok(())
    } else if status == 401 || status == 403 {
        Err(SyncError::Auth)
    } else {
        Err(SyncError::Transport)
    }
}

/// Whether an upload response status grants success: exactly the 2xx range.
/// A non-2xx status is a hard failure for the bucket's upload, surfaced as a
/// run failure and never as a process exit.
pub fn check_upload_status(status: u16) -> (r: Result<(), SyncError>)
    ensures
        r is Ok <==> 200 <= status < 300,
        r is Err ==> r->Err_0 == SyncError::ServerRejected(status),
{
    if 200 <= status && status < 300 {
        Ok(())
    } else {
        Err(SyncError::ServerRejected(status))
    }
}

} // verus!
