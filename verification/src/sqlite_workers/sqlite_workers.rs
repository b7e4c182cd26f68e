//! A worker as the control plane sees it: a pod name and the instant of its
//! last heartbeat.

use crate::databases::database::{row_views, DatabaseRow, RowView};
use crate::utils::{decimal, decimal_text};
use vstd::prelude::*;
use vstd::string::*;

verus! {

/// A worker is routable while its last heartbeat is younger than this many
/// milliseconds.
pub const HEARTBEAT_LIVENESS_MS: u64 = 3_000;

/// Whether a heartbeat received at `last_heartbeat` still counts at `now`
/// (both in milliseconds since the epoch).
pub open spec fn heartbeat_is_fresh(last_heartbeat: u64, now: u64) -> bool {
    now - last_heartbeat < HEARTBEAT_LIVENESS_MS
}

/// Whether a heartbeat counts given a clock reading that may have failed: an
/// unreadable clock keeps nobody alive.
pub open spec fn heartbeat_is_fresh_on(last_heartbeat: u64, clock: Option<u64>) -> bool {
    match clock {
        Some(now) => heartbeat_is_fresh(last_heartbeat, now),
        None => false,
    }
}

/// Reads the wall clock through `std::time::SystemTime::now` and hands back
/// the milliseconds since the Unix epoch, or `None` when the clock stands
/// before the epoch or the count does not fit. Nothing is claimed of the
/// value: it differs from call to call.
#[verifier::external_body]
fn now_ms() -> (ms: Option<u64>) {
    match std::time::SystemTime::now().duration_since(std::time::UNIX_EPOCH) {
        Ok(elapsed) => u64::try_from(elapsed.as_millis()).ok(),
        Err(_) => None,
    }
}

pub struct SqliteWorker {
    last_heartbeat: u64,
    pod_name: String,
}

impl SqliteWorker {
    pub closed spec fn spec_last_heartbeat(&self) -> u64 {
        self.last_heartbeat
    }

    pub closed spec fn spec_pod_name(&self) -> Seq<char> {
        self.pod_name@
    }

    pub fn new(pod_name: String, last_heartbeat: u64) -> (worker: Self)
        ensures
            worker.spec_pod_name() == pod_name@,
            worker.spec_last_heartbeat() == last_heartbeat,
    {
        Self { last_heartbeat, pod_name }
    }

    /// Liveness at a given instant: the heartbeat is less than
    /// `HEARTBEAT_LIVENESS_MS` old. A heartbeat stamped after `now` counts as
    /// fresh.
    pub fn is_alive_at(&self, now: u64) -> (alive: bool)
        ensures
            alive == heartbeat_is_fresh(self.spec_last_heartbeat(), now),
    {
        now < self.last_heartbeat || now - self.last_heartbeat < HEARTBEAT_LIVENESS_MS
    }

    /// Liveness against the wall clock.
    pub fn is_alive(&self) -> (alive: bool)
        ensures
            exists|clock: Option<u64>|
                alive == heartbeat_is_fresh_on(self.spec_last_heartbeat(), clock),
    {
        let clock = now_ms();
        let alive = match clock {
            Some(now) => self.is_alive_at(now),
            None => false,
        };
        assert(alive == heartbeat_is_fresh_on(self.spec_last_heartbeat(), clock));
        alive
    }
}

/// What the address of a worker depends on besides its pod name.
#[derive(Debug)]
pub struct WorkerEnv {
    /// The process runs on a developer's machine, outside the cluster.
    pub is_local_dev: bool,
    pub cluster_namespace: Option<String>,
    pub headless_service_name: Option<String>,
}

#[derive(Clone, Copy, PartialEq, Eq, Structural, Debug)]
pub enum HttpMethod {
    Get,
    Post,
    Delete,
}

/// A request for the transport to send; requests carry JSON.
#[derive(Debug)]
pub struct WorkerRequest {
    pub method: HttpMethod,
    pub uri: String,
}

#[derive(Debug)]
pub enum WorkerError {
    ClusterNamespaceNotSet,
    HeadlessServiceNameNotSet,
    /// The worker answered an upsert with this status.
    UpsertStatus(u16),
    /// The worker answered a listing with this status.
    GetRowsStatus(u16),
    /// The worker's answer carries this error.
    Retrieval(String),
    /// The worker's answer carries neither an error nor rows.
    NoRowsInResponse,
}

pub enum WorkerErrorView {
    ClusterNamespaceNotSet,
    HeadlessServiceNameNotSet,
    UpsertStatus(u16),
    GetRowsStatus(u16),
    Retrieval(Seq<char>),
    NoRowsInResponse,
}

impl View for WorkerError {
    type V = WorkerErrorView;

    open spec fn view(&self) -> WorkerErrorView {
        match self {
            WorkerError::ClusterNamespaceNotSet => WorkerErrorView::ClusterNamespaceNotSet,
            WorkerError::HeadlessServiceNameNotSet => WorkerErrorView::HeadlessServiceNameNotSet,
            WorkerError::UpsertStatus(status) => WorkerErrorView::UpsertStatus(*status),
            WorkerError::GetRowsStatus(status) => WorkerErrorView::GetRowsStatus(*status),
            WorkerError::Retrieval(message) => WorkerErrorView::Retrieval(message@),
            WorkerError::NoRowsInResponse => WorkerErrorView::NoRowsInResponse,
        }
    }
}

/// The address of a pod inside the cluster.
pub open spec fn cluster_url(pod_name: Seq<char>, service: Seq<char>, namespace: Seq<char>) -> Seq<
    char,
> {
    "http://"@ + pod_name + "."@ + service + "."@ + namespace + ".svc.cluster.local"@
}

/// The address of a worker, or why it cannot be given. Outside the cluster
/// every worker is the local one; inside, the namespace is looked at before
/// the service name.
pub open spec fn worker_url(
    pod_name: Seq<char>,
    is_local_dev: bool,
    namespace: Option<Seq<char>>,
    service: Option<Seq<char>>,
) -> Result<Seq<char>, WorkerErrorView> {
    if is_local_dev {
        Ok("http://localhost:3005"@)
    } else if namespace is None {
        Err(WorkerErrorView::ClusterNamespaceNotSet)
    } else if service is None {
        Err(WorkerErrorView::HeadlessServiceNameNotSet)
    } else {
        Ok(cluster_url(pod_name, service->Some_0, namespace->Some_0))
    }
}

/// The address under which a worker serves the rows of a table.
pub open spec fn rows_uri(base: Seq<char>, database_id: Seq<char>, table_id: Seq<char>) -> Seq<
    char,
> {
    base + "/databases/"@ + database_id + "/tables/"@ + table_id + "/rows"@
}

/// The address of a page of rows.
pub open spec fn page_uri(rows_uri: Seq<char>, limit: nat, offset: nat) -> Seq<char> {
    rows_uri + "?limit="@ + decimal(limit) + "&offset="@ + decimal(offset)
}

pub open spec fn option_text(text: Option<String>) -> Option<Seq<char>> {
    match text {
        Some(t) => Some(t@),
        None => None,
    }
}

pub open spec fn url_result_view(result: Result<String, WorkerError>) -> Result<
    Seq<char>,
    WorkerErrorView,
> {
    match result {
        Ok(url) => Ok(url@),
        Err(e) => Err(e@),
    }
}

pub open spec fn request_result_view(result: Result<WorkerRequest, WorkerError>) -> Result<
    (HttpMethod, Seq<char>),
    WorkerErrorView,
> {
    match result {
        Ok(request) => Ok((request.method, request.uri@)),
        Err(e) => Err(e@),
    }
}

/// What a worker answers to a listing of rows.
#[derive(Debug)]
pub struct GetRowsResponse {
    pub rows: Vec<DatabaseRow>,
    pub total: usize,
}

/// The envelope of a worker's answer.
#[derive(Debug)]
pub struct GetRowsResponseBody {
    pub error: Option<String>,
    pub response: Option<GetRowsResponse>,
}

pub open spec fn rows_result_view(result: Result<(Vec<DatabaseRow>, usize), WorkerError>) -> Result<
    (Seq<RowView>, usize),
    WorkerErrorView,
> {
    match result {
        Ok((rows, total)) => Ok((row_views(rows@), total)),
        Err(e) => Err(e@),
    }
}

/// What an answer to a listing means: anything but status 200 is a failure;
/// an error in the envelope wins over rows; an envelope with neither is a
/// failure too.
pub open spec fn get_rows_outcome(status: u16, body: GetRowsResponseBody) -> Result<
    (Seq<RowView>, usize),
    WorkerErrorView,
> {
    if status != 200 {
        Err(WorkerErrorView::GetRowsStatus(status))
    } else {
        match body.error {
            Some(message) => Err(WorkerErrorView::Retrieval(message@)),
            None => match body.response {
                Some(response) => Ok((row_views(response.rows@), response.total)),
                None => Err(WorkerErrorView::NoRowsInResponse),
            },
        }
    }
}

impl SqliteWorker {
    pub fn pod_name(&self) -> (name: &str)
        ensures
            name@ == self.spec_pod_name(),
    {
        self.pod_name.as_str()
    }

    pub fn last_heartbeat(&self) -> (at: u64)
        ensures
            at == self.spec_last_heartbeat(),
    {
        self.last_heartbeat
    }

    /// Whether this is the worker of the given pod.
    pub fn is_pod(&self, pod_name: &String) -> (same: bool)
        ensures
            same == (self.spec_pod_name() == pod_name@),
    {
        self.pod_name == *pod_name
    }

    /// The base address of this worker.
    pub fn url(&self, env: &WorkerEnv) -> (result: Result<String, WorkerError>)
        ensures
            url_result_view(result) == worker_url(
                self.spec_pod_name(),
                env.is_local_dev,
                option_text(env.cluster_namespace),
                option_text(env.headless_service_name),
            ),
    {
        if env.is_local_dev {
            return Ok("http://localhost:3005".to_owned());
        }
        let namespace = match &env.cluster_namespace {
            Some(namespace) => namespace,
            None => {
                return Err(WorkerError::ClusterNamespaceNotSet);
            },
        };
        let service = match &env.headless_service_name {
            Some(service) => service,
            None => {
                return Err(WorkerError::HeadlessServiceNameNotSet);
            },
        };
        let url = "http://".to_owned().concat(self.pod_name.as_str()).concat(".").concat(
            service.as_str(),
        ).concat(".").concat(namespace.as_str()).concat(".svc.cluster.local");
        Ok(url)
    }

    fn rows_address(&self, env: &WorkerEnv, database_unique_id: &str, table_id: &str) -> (result:
        Result<String, WorkerError>)
        ensures
            url_result_view(result) == match worker_url(
                self.spec_pod_name(),
                env.is_local_dev,
                option_text(env.cluster_namespace),
                option_text(env.headless_service_name),
            ) {
                Ok(base) => Ok(rows_uri(base, database_unique_id@, table_id@)),
                Err(e) => Err(e),
            },
    {
        match self.url(env) {
            Ok(base) => Ok(
                base.concat("/databases/").concat(database_unique_id).concat("/tables/").concat(
                    table_id,
                ).concat("/rows"),
            ),
            Err(e) => Err(e),
        }
    }

    /// The request that sends rows to this worker. Its body, which the
    /// transport writes, holds the rows and whether to truncate.
    pub fn upsert_rows(&self, env: &WorkerEnv, database_unique_id: &str, table_id: &str) -> (result:
        Result<WorkerRequest, WorkerError>)
        ensures
            request_result_view(result) == match worker_url(
                self.spec_pod_name(),
                env.is_local_dev,
                option_text(env.cluster_namespace),
                option_text(env.headless_service_name),
            ) {
                Ok(base) => Ok((HttpMethod::Post, rows_uri(base, database_unique_id@, table_id@))),
                Err(e) => Err(e),
            },
    {
        match self.rows_address(env, database_unique_id, table_id) {
            Ok(uri) => Ok(WorkerRequest { method: HttpMethod::Post, uri }),
            Err(e) => Err(e),
        }
    }

    /// The request that lists the rows of a table, all of them or one page.
    pub fn get_rows(
        &self,
        env: &WorkerEnv,
        database_unique_id: &str,
        table_id: &str,
        limit_offset: Option<(usize, usize)>,
    ) -> (result: Result<WorkerRequest, WorkerError>)
        ensures
            request_result_view(result) == match worker_url(
                self.spec_pod_name(),
                env.is_local_dev,
                option_text(env.cluster_namespace),
                option_text(env.headless_service_name),
            ) {
                Ok(base) => Ok(
                    (
                        HttpMethod::Get,
                        match limit_offset {
                            Some((limit, offset)) => page_uri(
                                rows_uri(base, database_unique_id@, table_id@),
                                limit as nat,
                                offset as nat,
                            ),
                            None => rows_uri(base, database_unique_id@, table_id@),
                        },
                    ),
                ),
                Err(e) => Err(e),
            },
    {
        match self.rows_address(env, database_unique_id, table_id) {
            Ok(uri) => {
                let uri = match limit_offset {
                    Some((limit, offset)) => {
                        let limit_text = decimal_text(limit as u64);
                        let offset_text = decimal_text(offset as u64);
                        uri.concat("?limit=").concat(limit_text.as_str()).concat("&offset=").concat(
                            offset_text.as_str(),
                        )
                    },
                    None => uri,
                };
                Ok(WorkerRequest { method: HttpMethod::Get, uri })
            },
            Err(e) => Err(e),
        }
    }
}

/// What the status of an answer to an upsert means: 200 is success.
pub fn upsert_rows_response(status: u16) -> (result: Result<(), WorkerError>)
    ensures
        status == 200 ==> result is Ok,
        status != 200 ==> result is Err && result->Err_0@ == WorkerErrorView::UpsertStatus(status),
{
    if status == 200 {
        Ok(())
    } else {
        Err(WorkerError::UpsertStatus(status))
    }
}

/// What an answer to a listing of rows means. The body is looked at only
/// under status 200.
pub fn get_rows_response(status: u16, body: GetRowsResponseBody) -> (result: Result<
    (Vec<DatabaseRow>, usize),
    WorkerError,
>)
    ensures
        rows_result_view(result) == get_rows_outcome(status, body),
{
    if status != 200 {
        return Err(WorkerError::GetRowsStatus(status));
    }
    match body.error {
        Some(message) => Err(WorkerError::Retrieval(message)),
        None => match body.response {
            Some(response) => Ok((response.rows, response.total)),
            None => Err(WorkerError::NoRowsInResponse),
        },
    }
}

} // verus!
