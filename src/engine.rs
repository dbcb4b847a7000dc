//! The engine: the device list, the identifier counters of each namespace,
//! and the registry of outstanding requests with their completion accounting.

use vstd::prelude::*;
use std::collections::HashMap;
use crate::control::ControlWorker;
use crate::device::{
    NCCLNetProperties, NCCLSocketDev, SocketAddress, DEFAULT_SOCKET_MAX_COMMS, NCCL_PTR_HOST,
};
use crate::error::{inner_error, BaguaNetError};
use crate::request::RequestState;

verus! {

/// An outstanding send, on the send communicator `comm_id`.
#[derive(Debug, Clone, Copy, PartialEq, Eq, Structural)]
pub struct SocketSendRequest {
    pub comm_id: usize,
    pub state: RequestState,
}

/// An outstanding receive, on the receive communicator `comm_id`.
#[derive(Debug, Clone, Copy, PartialEq, Eq, Structural)]
pub struct SocketRecvRequest {
    pub comm_id: usize,
    pub state: RequestState,
}

#[derive(Debug, Clone, Copy, PartialEq, Eq, Structural)]
pub enum SocketRequest {
    SendRequest(SocketSendRequest),
    RecvRequest(SocketRecvRequest),
}

impl SocketRequest {
    pub open spec fn spec_state(&self) -> RequestState {
        match self {
            SocketRequest::SendRequest(r) => r.state,
            SocketRequest::RecvRequest(r) => r.state,
        }
    }

    /// The same request with its counters replaced.
    pub open spec fn spec_with_state(&self, s: RequestState) -> SocketRequest {
        match self {
            SocketRequest::SendRequest(r) => SocketRequest::SendRequest(
                SocketSendRequest { state: s, ..*r },
            ),
            SocketRequest::RecvRequest(r) => SocketRequest::RecvRequest(
                SocketRecvRequest { state: s, ..*r },
            ),
        }
    }

    pub fn state(&self) -> (r: RequestState)
        ensures
            r == self.spec_state(),
    {
        match self {
            SocketRequest::SendRequest(r) => r.state,
            SocketRequest::RecvRequest(r) => r.state,
        }
    }

    pub fn with_state(&self, s: RequestState) -> (r: SocketRequest)
        ensures
            r == self.spec_with_state(s),
    {
        match self {
            SocketRequest::SendRequest(r) => SocketRequest::SendRequest(
                SocketSendRequest { comm_id: r.comm_id, state: s },
            ),
            SocketRequest::RecvRequest(r) => SocketRequest::RecvRequest(
                SocketRecvRequest { comm_id: r.comm_id, state: s },
            ),
        }
    }
}

/// A report from a worker about one request.
#[derive(Debug, Clone, Copy, PartialEq, Eq, Structural)]
pub enum Progress {
    /// The control worker has handled the request's header and planned `nbuckets` buckets.
    ControlDone { request: usize, nbuckets: usize },
    /// A stream worker has moved one bucket of `nbytes` bytes of the request.
    BucketDone { request: usize, nbytes: usize },
}

/// The registry after a report, or `None` where the report names no
/// outstanding request or would finish more subtasks than are planned.
pub open spec fn spec_record(m: Map<usize, SocketRequest>, e: Progress) -> Option<
    Map<usize, SocketRequest>,
> {
    match e {
        Progress::ControlDone { request, nbuckets } => if m.contains_key(request)
            && m[request].spec_state().can_finish_control(nbuckets as int) {
            Some(
                m.insert(
                    request,
                    m[request].spec_with_state(
                        m[request].spec_state().spec_finish_control(nbuckets as int),
                    ),
                ),
            )
        } else {
            None
        },
        Progress::BucketDone { request, nbytes } => if m.contains_key(request)
            && m[request].spec_state().can_finish_bucket(nbytes as int) {
            Some(
                m.insert(
                    request,
                    m[request].spec_with_state(
                        m[request].spec_state().spec_finish_bucket(nbytes as int),
                    ),
                ),
            )
        } else {
            None
        },
    }
}

/// What polling request `id` reports: whether it is done and how many bytes it
/// has moved, or `None` for an id with no outstanding request.
pub open spec fn spec_poll(m: Map<usize, SocketRequest>, id: usize) -> Option<(bool, usize)> {
    if m.contains_key(id) {
        Some((m[id].spec_state().done(), m[id].spec_state().nbytes_transferred))
    } else {
        None
    }
}

/// The registry after polling `id`: a request seen done is dropped.
pub open spec fn spec_after_poll(m: Map<usize, SocketRequest>, id: usize) -> Map<
    usize,
    SocketRequest,
> {
    if m.contains_key(id) && m[id].spec_state().done() {
        m.remove(id)
    } else {
        m
    }
}

/// The namespaces in which the engine hands out identifiers.
pub enum IdSpace {
    Listen,
    Send,
    Recv,
    Request,
}

pub struct BaguaNet {
    pub socket_devs: Vec<NCCLSocketDev>,
    pub listen_comm_next_id: usize,
    pub send_comm_next_id: usize,
    pub recv_comm_next_id: usize,
    pub socket_request_next_id: usize,
    pub socket_request_map: HashMap<usize, SocketRequest>,
    /// The process's rank, for labelling only.
    pub rank: i32,
    /// Number of data streams per communicator.
    pub nstreams: usize,
    /// Messages shorter than this are not striped.
    pub task_split_threshold: usize,
}

impl BaguaNet {
    /// At least one stream; every outstanding request has an id already handed
    /// out and consistent counters.
    pub open spec fn wf(&self) -> bool {
        &&& self.nstreams >= 1
        &&& forall|id: usize| #[trigger]
            self.socket_request_map@.contains_key(id) ==> id < self.socket_request_next_id
                && self.socket_request_map@[id].spec_state().wf()
    }

    /// The next identifier of a namespace.
    pub open spec fn next_id(&self, space: IdSpace) -> usize {
        match space {
            IdSpace::Listen => self.listen_comm_next_id,
            IdSpace::Send => self.send_comm_next_id,
            IdSpace::Recv => self.recv_comm_next_id,
            IdSpace::Request => self.socket_request_next_id,
        }
    }

    /// No counter of `self` is behind the same counter of `earlier`.
    pub open spec fn ids_not_behind(&self, earlier: &BaguaNet) -> bool {
        &&& self.listen_comm_next_id >= earlier.listen_comm_next_id
        &&& self.send_comm_next_id >= earlier.send_comm_next_id
        &&& self.recv_comm_next_id >= earlier.recv_comm_next_id
        &&& self.socket_request_next_id >= earlier.socket_request_next_id
    }

    /// The part of the state that only the identifier counters and the registry do not cover.
    pub open spec fn same_setup(&self, other: &BaguaNet) -> bool {
        &&& self.socket_devs@ == other.socket_devs@
        &&& self.rank == other.rank
        &&& self.nstreams == other.nstreams
        &&& self.task_split_threshold == other.task_split_threshold
    }

    /// An engine over the given devices with no communicator and no request;
    /// zero streams is refused.
    pub fn new(socket_devs: Vec<NCCLSocketDev>, rank: i32, nstreams: usize, task_split_threshold: usize) -> (r: Result<
        BaguaNet,
        BaguaNetError,
    >)
        ensures
            nstreams == 0 ==> r is Err && r->Err_0 is InnerError,
            nstreams >= 1 ==> r is Ok && ({
                let net = r->Ok_0;
                &&& net.wf()
                &&& net.socket_devs@ == socket_devs@
                &&& net.rank == rank
                &&& net.nstreams == nstreams
                &&& net.task_split_threshold == task_split_threshold
                &&& net.listen_comm_next_id == 0
                &&& net.send_comm_next_id == 0
                &&& net.recv_comm_next_id == 0
                &&& net.socket_request_next_id == 0
                &&& net.socket_request_map@ == Map::<usize, SocketRequest>::empty()
            }),
    {
        if nstreams == 0 {
            return Err(inner_error("the stream count must be at least one"));
        }
        Ok(
            BaguaNet {
                socket_devs,
                listen_comm_next_id: 0,
                send_comm_next_id: 0,
                recv_comm_next_id: 0,
                socket_request_next_id: 0,
                socket_request_map: HashMap::new(),
                rank,
                nstreams,
                task_split_threshold,
            },
        )
    }

    /// Number of devices.
    pub fn devices(&self) -> (r: Result<usize, BaguaNetError>)
        ensures
            r == Ok::<usize, BaguaNetError>(self.socket_devs@.len() as usize),
    {
        Ok(self.socket_devs.len())
    }

    /// The properties of device `dev_id`; an index past the last device is refused.
    pub fn get_properties(&self, dev_id: usize) -> (r: Result<NCCLNetProperties, BaguaNetError>)
        ensures
            dev_id >= self.socket_devs@.len() ==> r is Err && r->Err_0 is InnerError,
            dev_id < self.socket_devs@.len() ==> r is Ok && ({
                let p = r->Ok_0;
                let dev = self.socket_devs@[dev_id as int];
                &&& p.name == dev.interface_name
                &&& p.pci_path == dev.pci_path
                &&& p.guid == dev_id as u64
                &&& p.ptr_support == NCCL_PTR_HOST
                &&& p.speed == dev.speed
                &&& p.port == 0
                &&& p.max_comms == DEFAULT_SOCKET_MAX_COMMS
            }),
    {
        if dev_id >= self.socket_devs.len() {
            return Err(inner_error("no device has this index"));
        }
        let dev = &self.socket_devs[dev_id];
        Ok(
            NCCLNetProperties {
                name: dev.interface_name.clone(),
                pci_path: dev.pci_path.clone(),
                guid: dev_id as u64,
                ptr_support: NCCL_PTR_HOST,
                speed: dev.speed,
                port: 0,
                max_comms: DEFAULT_SOCKET_MAX_COMMS,
            },
        )
    }

    /// Opens a listener on device `dev_id`: returns the address to bind and the
    /// listener's id. A missing device, an address that cannot carry TCP, and an
    /// exhausted namespace are refused, and then nothing changes.
    pub fn listen(&mut self, dev_id: usize) -> (r: Result<(SocketAddress, usize), BaguaNetError>)
        requires
            old(self).wf(),
        ensures
            final(self).wf(),
            final(self).same_setup(old(self)),
            final(self).ids_not_behind(old(self)),
            final(self).socket_request_map@ == old(self).socket_request_map@,
            final(self).send_comm_next_id == old(self).send_comm_next_id,
            final(self).recv_comm_next_id == old(self).recv_comm_next_id,
            final(self).socket_request_next_id == old(self).socket_request_next_id,
            (dev_id >= old(self).socket_devs@.len() || !old(self).socket_devs@[
                dev_id as int
            ].addr.is_inet() || old(self).listen_comm_next_id == usize::MAX) ==> r is Err
                && r->Err_0 is InnerError && final(self).listen_comm_next_id
                == old(self).listen_comm_next_id,
            (dev_id < old(self).socket_devs@.len() && old(self).socket_devs@[
                dev_id as int
            ].addr.is_inet() && old(self).listen_comm_next_id < usize::MAX) ==> r == Ok::<
                (SocketAddress, usize),
                BaguaNetError,
            >((old(self).socket_devs@[dev_id as int].addr, old(self).listen_comm_next_id))
                && final(self).listen_comm_next_id == old(self).listen_comm_next_id + 1,
    {
        if dev_id >= self.socket_devs.len() {
            return Err(inner_error("no device has this index"));
        }
        let addr = self.socket_devs[dev_id].addr;
        if let SocketAddress::Unsupported = addr {
            return Err(inner_error("the device address is not an IPv4 or IPv6 address"));
        }
        if self.listen_comm_next_id == usize::MAX {
            return Err(inner_error("listener identifiers are exhausted"));
        }
        let id = self.listen_comm_next_id;
        self.listen_comm_next_id = id + 1;
        Ok((addr, id))
    }

    /// Registers a send communicator whose connections are established;
    /// returns its id and the control worker that drives it.
    pub fn connect(&mut self) -> (r: Result<(usize, ControlWorker), BaguaNetError>)
        requires
            old(self).wf(),
        ensures
            final(self).wf(),
            final(self).same_setup(old(self)),
            final(self).ids_not_behind(old(self)),
            final(self).socket_request_map@ == old(self).socket_request_map@,
            final(self).listen_comm_next_id == old(self).listen_comm_next_id,
            final(self).recv_comm_next_id == old(self).recv_comm_next_id,
            final(self).socket_request_next_id == old(self).socket_request_next_id,
            old(self).send_comm_next_id == usize::MAX ==> r is Err && r->Err_0 is InnerError
                && final(self).send_comm_next_id == old(self).send_comm_next_id,
            old(self).send_comm_next_id < usize::MAX ==> r == Ok::<
                (usize, ControlWorker),
                BaguaNetError,
            >(
                (
                    old(self).send_comm_next_id,
                    ControlWorker {
                        nstreams: old(self).nstreams,
                        task_split_threshold: old(self).task_split_threshold,
                        downstream_id: 0,
                    },
                ),
            ) && final(self).send_comm_next_id == old(self).send_comm_next_id + 1,
    {
        if self.send_comm_next_id == usize::MAX {
            return Err(inner_error("send communicator identifiers are exhausted"));
        }
        let id = self.send_comm_next_id;
        self.send_comm_next_id = id + 1;
        Ok((id, ControlWorker::new(self.nstreams, self.task_split_threshold)))
    }

    /// Registers a receive communicator whose connections are accepted;
    /// returns its id and the control worker that drives it.
    pub fn accept(&mut self) -> (r: Result<(usize, ControlWorker), BaguaNetError>)
        requires
            old(self).wf(),
        ensures
            final(self).wf(),
            final(self).same_setup(old(self)),
            final(self).ids_not_behind(old(self)),
            final(self).socket_request_map@ == old(self).socket_request_map@,
            final(self).listen_comm_next_id == old(self).listen_comm_next_id,
            final(self).send_comm_next_id == old(self).send_comm_next_id,
            final(self).socket_request_next_id == old(self).socket_request_next_id,
            old(self).recv_comm_next_id == usize::MAX ==> r is Err && r->Err_0 is InnerError
                && final(self).recv_comm_next_id == old(self).recv_comm_next_id,
            old(self).recv_comm_next_id < usize::MAX ==> r == Ok::<
                (usize, ControlWorker),
                BaguaNetError,
            >(
                (
                    old(self).recv_comm_next_id,
                    ControlWorker {
                        nstreams: old(self).nstreams,
                        task_split_threshold: old(self).task_split_threshold,
                        downstream_id: 0,
                    },
                ),
            ) && final(self).recv_comm_next_id == old(self).recv_comm_next_id + 1,
    {
        if self.recv_comm_next_id == usize::MAX {
            return Err(inner_error("receive communicator identifiers are exhausted"));
        }
        let id = self.recv_comm_next_id;
        self.recv_comm_next_id = id + 1;
        Ok((id, ControlWorker::new(self.nstreams, self.task_split_threshold)))
    }

    /// Registers a new request `req` under the next request id.
    fn register(&mut self, req: SocketRequest) -> (r: Result<usize, BaguaNetError>)
        requires
            old(self).wf(),
            req.spec_state() == RequestState::initial(),
        ensures
            final(self).wf(),
            final(self).same_setup(old(self)),
            final(self).ids_not_behind(old(self)),
            final(self).listen_comm_next_id == old(self).listen_comm_next_id,
            final(self).send_comm_next_id == old(self).send_comm_next_id,
            final(self).recv_comm_next_id == old(self).recv_comm_next_id,
            old(self).socket_request_next_id == usize::MAX ==> r is Err && r->Err_0 is InnerError
                && final(self).socket_request_next_id == old(self).socket_request_next_id
                && final(self).socket_request_map@ == old(self).socket_request_map@,
            old(self).socket_request_next_id < usize::MAX ==> r == Ok::<usize, BaguaNetError>(
                old(self).socket_request_next_id,
            ) && final(self).socket_request_next_id == old(self).socket_request_next_id + 1
                && final(self).socket_request_map@ == old(self).socket_request_map@.insert(
                old(self).socket_request_next_id,
                req,
            ),
    {
        if self.socket_request_next_id == usize::MAX {
            return Err(inner_error("request identifiers are exhausted"));
        }
        let id = self.socket_request_next_id;
        self.socket_request_next_id = id + 1;
        self.socket_request_map.insert(id, req);
        Ok(id)
    }

    /// Submits a send on communicator `send_comm_id`; returns the request's id.
    pub fn isend(&mut self, send_comm_id: usize) -> (r: Result<usize, BaguaNetError>)
        requires
            old(self).wf(),
        ensures
            final(self).wf(),
            final(self).same_setup(old(self)),
            final(self).ids_not_behind(old(self)),
            final(self).listen_comm_next_id == old(self).listen_comm_next_id,
            final(self).send_comm_next_id == old(self).send_comm_next_id,
            final(self).recv_comm_next_id == old(self).recv_comm_next_id,
            old(self).socket_request_next_id == usize::MAX ==> r is Err && r->Err_0 is InnerError
                && final(self).socket_request_next_id == old(self).socket_request_next_id
                && final(self).socket_request_map@ == old(self).socket_request_map@,
            old(self).socket_request_next_id < usize::MAX ==> r == Ok::<usize, BaguaNetError>(
                old(self).socket_request_next_id,
            ) && final(self).socket_request_next_id == old(self).socket_request_next_id + 1
                && final(self).socket_request_map@ == old(self).socket_request_map@.insert(
                old(self).socket_request_next_id,
                SocketRequest::SendRequest(
                    SocketSendRequest { comm_id: send_comm_id, state: RequestState::initial() },
                ),
            ),
    {
        let req = SocketRequest::SendRequest(
            SocketSendRequest { comm_id: send_comm_id, state: RequestState::new() },
        );
        self.register(req)
    }

    /// Submits a receive on communicator `recv_comm_id`; returns the request's id.
    pub fn irecv(&mut self, recv_comm_id: usize) -> (r: Result<usize, BaguaNetError>)
        requires
            old(self).wf(),
        ensures
            final(self).wf(),
            final(self).same_setup(old(self)),
            final(self).ids_not_behind(old(self)),
            final(self).listen_comm_next_id == old(self).listen_comm_next_id,
            final(self).send_comm_next_id == old(self).send_comm_next_id,
            final(self).recv_comm_next_id == old(self).recv_comm_next_id,
            old(self).socket_request_next_id == usize::MAX ==> r is Err && r->Err_0 is InnerError
                && final(self).socket_request_next_id == old(self).socket_request_next_id
                && final(self).socket_request_map@ == old(self).socket_request_map@,
            old(self).socket_request_next_id < usize::MAX ==> r == Ok::<usize, BaguaNetError>(
                old(self).socket_request_next_id,
            ) && final(self).socket_request_next_id == old(self).socket_request_next_id + 1
                && final(self).socket_request_map@ == old(self).socket_request_map@.insert(
                old(self).socket_request_next_id,
                SocketRequest::RecvRequest(
                    SocketRecvRequest { comm_id: recv_comm_id, state: RequestState::initial() },
                ),
            ),
    {
        let req = SocketRequest::RecvRequest(
            SocketRecvRequest { comm_id: recv_comm_id, state: RequestState::new() },
        );
        self.register(req)
    }

    /// Applies a worker's report to the registry. A report that names no
    /// outstanding request, or that would finish more subtasks than are
    /// planned, is ignored and `false` is returned.
    pub fn record(&mut self, event: Progress) -> (r: bool)
        requires
            old(self).wf(),
        ensures
            final(self).wf(),
            final(self).same_setup(old(self)),
            final(self).listen_comm_next_id == old(self).listen_comm_next_id,
            final(self).send_comm_next_id == old(self).send_comm_next_id,
            final(self).recv_comm_next_id == old(self).recv_comm_next_id,
            final(self).socket_request_next_id == old(self).socket_request_next_id,
            r == spec_record(old(self).socket_request_map@, event) is Some,
            final(self).socket_request_map@ == match spec_record(
                old(self).socket_request_map@,
                event,
            ) {
                Some(m) => m,
                None => old(self).socket_request_map@,
            },
    {
        let id = match event {
            Progress::ControlDone { request, nbuckets: _ } => request,
            Progress::BucketDone { request, nbytes: _ } => request,
        };
        let req = match self.socket_request_map.get(&id) {
            Some(req) => *req,
            None => return false,
        };
        let mut state = req.state();
        match event {
            Progress::ControlDone { request: _, nbuckets } => {
                if state.completed_subtasks >= state.nsubtasks || nbuckets > usize::MAX
                    - state.nsubtasks {
                    return false;
                }
                state.finish_control(nbuckets);
            },
            Progress::BucketDone { request: _, nbytes } => {
                if state.completed_subtasks >= state.nsubtasks || nbytes > usize::MAX
                    - state.nbytes_transferred {
                    return false;
                }
                state.finish_bucket(nbytes);
            },
        }
        self.socket_request_map.insert(id, req.with_state(state));
        true
    }

    /// Polls request `request_id`: whether it is done and the bytes it has
    /// moved so far. A request seen done is dropped from the registry; an id
    /// with no outstanding request is refused.
    pub fn test(&mut self, request_id: usize) -> (r: Result<(bool, usize), BaguaNetError>)
        requires
            old(self).wf(),
        ensures
            final(self).wf(),
            final(self).same_setup(old(self)),
            final(self).listen_comm_next_id == old(self).listen_comm_next_id,
            final(self).send_comm_next_id == old(self).send_comm_next_id,
            final(self).recv_comm_next_id == old(self).recv_comm_next_id,
            final(self).socket_request_next_id == old(self).socket_request_next_id,
            final(self).socket_request_map@ == spec_after_poll(
                old(self).socket_request_map@,
                request_id,
            ),
            match spec_poll(old(self).socket_request_map@, request_id) {
                Some(p) => r == Ok::<(bool, usize), BaguaNetError>(p),
                None => r is Err && r->Err_0 is InnerError,
            },
    {
        let state = match self.socket_request_map.get(&request_id) {
            Some(req) => req.state(),
            None => return Err(inner_error("no outstanding request has this id")),
        };
        let done = state.is_complete();
        if done {
            self.socket_request_map.remove(&request_id);
        }
        Ok((done, state.nbytes_transferred))
    }
}

/// Identifiers strictly increase within each namespace: the id handed out by a
/// call (the counter before it, which the call moves on by one) is below the id
/// handed out by any later call, since no call moves a counter back.
pub proof fn lemma_ids_increase(
    space: IdSpace,
    before_first: BaguaNet,
    after_first: BaguaNet,
    before_second: BaguaNet,
)
    requires
        after_first.next_id(space) == before_first.next_id(space) + 1,
        before_second.ids_not_behind(&after_first),
    ensures
        before_first.next_id(space) < before_second.next_id(space),
{
}

/// Once a poll has seen a request done, the request is gone: polling it again
/// is refused, and its id is below the next request id, so it is never handed
/// out again.
pub proof fn lemma_completed_request_removed(net: BaguaNet, id: usize)
    requires
        net.wf(),
        spec_poll(net.socket_request_map@, id) matches Some(p) && p.0,
    ensures
        spec_poll(spec_after_poll(net.socket_request_map@, id), id) is None,
        id < net.socket_request_next_id,
{
}

} // verus!
