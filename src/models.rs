//! The records that nodes exchange with each other and with browsers.
use vstd::prelude::*;

verus! {

/// The answer to a request that failed on the server.
pub struct ErrorResponse {
    pub success: bool,
    pub message: String,
    pub error: String,
}

impl ErrorResponse {
    pub fn new(error: &str) -> (r: Self)
        ensures
            !r.success,
            r.message@ == "Server Error"@,
            r.error@ == error@,
    {
        ErrorResponse {
            success: false,
            message: String::from_str("Server Error"),
            error: String::from_str(error),
        }
    }
}

/// The envelope of an event that a worker publishes on the store's channel.
pub struct RedisMessage {
    pub event_type: String,
    /// The topic that the event is for.
    pub topic: String,
    /// The event itself, as JSON.
    pub payload: String,
}

/// The parameters of a run as requested, and where it runs.
pub struct TestInfo {
    pub project_id: Option<String>,
    pub script_id: Option<String>,
    pub users: Option<u32>,
    pub spawn_rate: Option<u32>,
    pub workers: Option<u32>,
    pub host: Option<String>,
    pub time: Option<u32>,
    pub description: Option<String>,
    pub id: Option<String>,
    pub worker_ip: Option<String>,
}

/// The parameters of a run in the first single-node release.
pub struct TestParameter {
    pub project_id: String,
    pub script_id: String,
    pub users: Option<u32>,
    pub spawn_rate: Option<u32>,
    pub workers: Option<u32>,
    pub host: Option<String>,
    pub time: Option<u32>,
    pub description: Option<String>,
    pub id: Option<String>,
}

/// A row of a run's statistics, as the load generator writes it.
pub struct ResultRow {
    pub kind: String,
    pub name: String,
    pub request_count: String,
    pub failure_count: String,
    pub median_response_time: String,
    pub avarage_response_time: String,
    pub min_response_time: String,
    pub max_response_time: String,
    pub avarage_content_size: String,
    pub requests_per_second: String,
    pub failures_per_second: String,
}

/// A row of a run's statistics over time.
pub struct ResultHistory {
    pub timestamp: String,
    pub total_median_response_time: String,
    pub total_average_response_time: String,
    pub total_min_response_time: String,
    pub total_max_response_time: String,
}

/// A run as listed to browsers.
pub struct Test {
    pub id: String,
    pub script_id: String,
    pub project_id: String,
    /// 0 while running, 1 once ended.
    pub status: u8,
    pub results: Option<Vec<ResultRow>>,
    pub history: Option<Vec<ResultHistory>>,
    pub info: Option<TestInfo>,
}

/// A project being installed, as reported to browsers.
pub struct Project {
    pub id: String,
    /// 0 while installing, 1 once installed, 2 once failed.
    pub status: u8,
    pub error: Option<String>,
}

/// A project that was deleted.
pub struct DeletedProject {
    pub id: String,
}

/// A run that was deleted.
pub struct TestDeletedEvent {
    pub id: String,
}

/// A run that was stopped.
pub struct TestStoppeddEvent {
    pub id: String,
}

/// The projects named in a request.
pub struct ProjectIds {
    pub project_ids: Vec<String>,
}

/// A script of a project.
pub struct Script {
    pub project_id: String,
    pub script_id: String,
}

/// A worker node as it introduces itself.
pub struct WorkerInfo {
    pub worker_name: String,
}

fn clone_text(s: &Option<String>) -> (r: Option<String>)
    ensures
        match (s, r) {
            (Some(a), Some(b)) => a@ == b@,
            (None, None) => true,
            _ => false,
        },
{
    match s {
        Some(a) => Some(a.clone()),
        None => None,
    }
}

/// The address of the worker node that ran a run, given the run's info.
pub fn get_worker_ip(info: &TestInfo) -> (r: Option<String>)
    ensures
        match (info.worker_ip, r) {
            (Some(a), Some(b)) => a@ == b@,
            (None, None) => true,
            _ => false,
        },
{
    clone_text(&info.worker_ip)
}

} // verus!
