//! The bridge's approval queue: commands waiting for a human decision, and
//! their lifecycle from pending to completed, rejected or failed. Fresh ids
//! come from the host's random source; clock readings come in as text.

use vstd::prelude::*;

use crate::strutil::str_eq;

verus! {

/// Where an approval request stands.
#[derive(PartialEq, Eq, Structural, Clone, Copy, Debug)]
pub enum RequestState {
    Pending,
    Running,
    Completed,
    Rejected,
    Failed,
}

impl RequestState {
    /// The state's lower-case name.
    pub fn state_name(&self) -> (r: String)
        ensures
            r@ == match *self {
                RequestState::Pending => "pending"@,
                RequestState::Running => "running"@,
                RequestState::Completed => "completed"@,
                RequestState::Rejected => "rejected"@,
                RequestState::Failed => "failed"@,
            },
    {
        match self {
            RequestState::Pending => String::from_str("pending"),
            RequestState::Running => String::from_str("running"),
            RequestState::Completed => String::from_str("completed"),
            RequestState::Rejected => String::from_str("rejected"),
            RequestState::Failed => String::from_str("failed"),
        }
    }
}

/// What can go wrong handling a request.
pub enum RequestError {
    /// No request with this id exists.
    NotFound(String),
}

impl RequestError {
    /// A plain rendering for callers.
    pub fn message(&self) -> (r: String)
        ensures
            r@ == match *self {
                RequestError::NotFound(ref id) => "request not found: "@ + id@,
            },
    {
        match self {
            RequestError::NotFound(id) => {
                let mut r = String::from_str("request not found: ");
                r.append(id.as_str());
                r
            },
        }
    }
}

/// One approval request and its current outcome.
pub struct CommandRequest {
    pub id: String,
    pub command: String,
    pub path: String,
    pub include_hidden: bool,
    pub created_at: String,
    pub updated_at: String,
    pub state: RequestState,
    pub message: Option<String>,
    pub stdout: Option<String>,
    pub stderr: Option<String>,
}

impl CommandRequest {
    /// A value-equal copy.
    pub fn duplicate(&self) -> (r: CommandRequest)
        ensures
            r == *self,
    {
        CommandRequest {
            id: self.id.clone(),
            command: self.command.clone(),
            path: self.path.clone(),
            include_hidden: self.include_hidden,
            created_at: self.created_at.clone(),
            updated_at: self.updated_at.clone(),
            state: self.state,
            message: match &self.message {
                Some(m) => Some(m.clone()),
                None => None,
            },
            stdout: match &self.stdout {
                Some(m) => Some(m.clone()),
                None => None,
            },
            stderr: match &self.stderr {
                Some(m) => Some(m.clone()),
                None => None,
            },
        }
    }
}

/// Relies on `uuid::Uuid::new_v4` and its hyphenated rendering: a random
/// identifier, always 36 characters long. The generator aborts the process
/// only if the system's random source fails, an environment failure of the
/// out-of-memory class.
#[verifier::external_body]
pub fn new_request_id() -> (r: String)
    ensures
        r@.len() == 36,
{
    uuid::Uuid::new_v4().to_string()
}

/// The in-memory request queue.
pub struct RequestStore {
    entries: Vec<CommandRequest>,
}

impl RequestStore {
    /// The queued requests, in creation order.
    pub closed spec fn entries_spec(self) -> Seq<CommandRequest> {
        self.entries@
    }

    /// An empty queue.
    pub fn new() -> (r: RequestStore)
        ensures
            r.entries_spec().len() == 0,
    {
        RequestStore { entries: Vec::new() }
    }

    /// A snapshot of every request.
    pub fn list(&self) -> (r: Vec<CommandRequest>)
        ensures
            r@ == self.entries_spec(),
    {
        let mut out: Vec<CommandRequest> = Vec::new();
        let mut i: usize = 0;
        while i < self.entries.len()
            invariant
                i <= self.entries@.len(),
                out@ == self.entries@.subrange(0, i as int),
            decreases self.entries@.len() - i,
        {
            out.push(self.entries[i].duplicate());
            proof {
                assert(out@ =~= self.entries@.subrange(0, i + 1 as int));
            }
            i += 1;
        }
        proof {
            assert(self.entries@.subrange(0, self.entries@.len() as int) =~= self.entries@);
        }
        out
    }

    /// Queues a new pending request under a fresh id and returns its
    /// snapshot; the host supplies the clock reading.
    pub fn create_request(
        &mut self,
        command: &str,
        path: &str,
        include_hidden: bool,
        now: &str,
    ) -> (r: CommandRequest)
        ensures
            final(self).entries_spec() == old(self).entries_spec().push(r),
            r.command@ == command@,
            r.path@ == path@,
            r.include_hidden == include_hidden,
            r.created_at@ == now@,
            r.updated_at@ == now@,
            r.state == RequestState::Pending,
            r.message matches Some(m) && m@ == "waiting for user approval"@,
            r.stdout is None,
            r.stderr is None,
            r.id@.len() == 36,
    {
        let request = CommandRequest {
            id: new_request_id(),
            command: command.to_owned(),
            path: path.to_owned(),
            include_hidden,
            created_at: now.to_owned(),
            updated_at: now.to_owned(),
            state: RequestState::Pending,
            message: Some(String::from_str("waiting for user approval")),
            stdout: None,
            stderr: None,
        };
        let snapshot = request.duplicate();
        self.entries.push(request);
        snapshot
    }

    /// Index of the first request with this id.
    fn find_index(&self, id: &str) -> (r: Option<usize>)
        ensures
            match r {
                Some(i) => i < self.entries_spec().len() && self.entries_spec()[i as int].id@
                    == id@ && (forall|j: int|
                    0 <= j < i ==> self.entries_spec()[j].id@ != id@),
                None => forall|j: int|
                    0 <= j < self.entries_spec().len() ==> self.entries_spec()[j].id@ != id@,
            },
    {
        let mut i: usize = 0;
        while i < self.entries.len()
            invariant
                i <= self.entries@.len(),
                forall|j: int| 0 <= j < i ==> self.entries@[j].id@ != id@,
            decreases self.entries@.len() - i,
        {
            if str_eq(self.entries[i].id.as_str(), id) {
                return Some(i);
            }
            i += 1;
        }
        None
    }

    /// Rewrites the first request with this id: new state, message and
    /// captured streams, with the update time refreshed; returns the new
    /// snapshot.
    pub fn update(
        &mut self,
        id: &str,
        state: RequestState,
        message: Option<String>,
        stdout: Option<String>,
        stderr: Option<String>,
        now: &str,
    ) -> (r: Result<CommandRequest, RequestError>)
        ensures
            match r {
                Ok(req) => exists|i: int|
                    {
                        &&& 0 <= i < old(self).entries_spec().len()
                        &&& old(self).entries_spec()[i].id@ == id@
                        &&& final(self).entries_spec() == old(self).entries_spec().update(i, req)
                        &&& req.id == old(self).entries_spec()[i].id
                        &&& req.command == old(self).entries_spec()[i].command
                        &&& req.path == old(self).entries_spec()[i].path
                        &&& req.include_hidden == old(self).entries_spec()[i].include_hidden
                        &&& req.created_at == old(self).entries_spec()[i].created_at
                        &&& req.updated_at@ == now@
                        &&& req.state == state
                        &&& req.message == message
                        &&& req.stdout == stdout
                        &&& req.stderr == stderr
                    },
                Err(e) => *final(self) == *old(self) && (e matches RequestError::NotFound(p)
                    && p@ == id@) && (forall|j: int|
                    0 <= j < old(self).entries_spec().len() ==> old(self).entries_spec()[j].id@
                        != id@),
            },
    {
        match self.find_index(id) {
            Some(i) => {
                let old_entry = self.entries.remove(i);
                let updated = CommandRequest {
                    id: old_entry.id,
                    command: old_entry.command,
                    path: old_entry.path,
                    include_hidden: old_entry.include_hidden,
                    created_at: old_entry.created_at,
                    updated_at: now.to_owned(),
                    state,
                    message,
                    stdout,
                    stderr,
                };
                let snapshot = updated.duplicate();
                self.entries.insert(i, updated);
                proof {
                    assert(self.entries@ =~= old(self).entries@.update(i as int, snapshot));
                }
                Ok(snapshot)
            },
            None => Err(RequestError::NotFound(id.to_owned())),
        }
    }

    /// A snapshot of the first request with this id, if any.
    pub fn get(&self, id: &str) -> (r: Option<CommandRequest>)
        ensures
            match r {
                Some(req) => exists|i: int|
                    0 <= i < self.entries_spec().len() && self.entries_spec()[i].id@ == id@
                        && req == self.entries_spec()[i],
                None => forall|j: int|
                    0 <= j < self.entries_spec().len() ==> self.entries_spec()[j].id@ != id@,
            },
    {
        match self.find_index(id) {
            Some(i) => Some(self.entries[i].duplicate()),
            None => None,
        }
    }
}

} // verus!
