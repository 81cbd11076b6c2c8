//! Synchronous socket adapter: one logical client connection over one real socket, offered
//! through a non-blocking call convention (operations report "would block" instead of
//! suspending).
//!
//! The adapter keeps the bookkeeping and makes every decision; the caller reads the real
//! socket's status before a call and performs on the real socket what the call returns.
use vstd::prelude::*;
use crate::config::Endpoint;

verus! {

/// Identifies the logical connection that the adapter currently offers.
#[derive(Debug, Clone, Copy, PartialEq, Eq, Structural)]
pub struct SocketId(pub u32);

#[derive(Debug, Clone, Copy, PartialEq, Eq, Structural)]
pub enum SocketError {
    /// A connection was requested to another endpoint than the configured one.
    UnexpectedAddr { expected: Endpoint, got: Endpoint },
    /// The id handed in is not the one of the live logical connection.
    UnexpectedSocketId { expected: Option<SocketId>, got: Option<SocketId> },
    /// The connection was reset or closed by the peer.
    ConnectionReset,
}

/// Coarse class of a socket error, as a protocol client sees it.
#[derive(Debug, Clone, Copy, PartialEq, Eq, Structural)]
pub enum ErrorKind {
    PipeClosed,
    Other,
}

impl SocketError {
    pub fn kind(&self) -> (r: ErrorKind)
        ensures
            r == (if *self is ConnectionReset {
                ErrorKind::PipeClosed
            } else {
                ErrorKind::Other
            }),
    {
        match self {
            SocketError::ConnectionReset => ErrorKind::PipeClosed,
            _ => ErrorKind::Other,
        }
    }
}

/// Failure of a non-blocking call: not ready yet, or a real error.
#[derive(Debug, Clone, Copy, PartialEq, Eq, Structural)]
pub enum NbError {
    WouldBlock,
    Other(SocketError),
}

/// The adapter's state: the fixed remote endpoint, the id of the live logical connection,
/// and the last id handed out.
pub struct StackView {
    pub endpoint: Endpoint,
    pub current: Option<SocketId>,
    pub last: u32,
}

/// Emulates one logical client connection over a single real socket. Only one logical
/// connection can be open at a time; ids grow with every connection opened.
pub struct BlockingSocketStack {
    endpoint: Endpoint,
    current_socket_id: Option<SocketId>,
    last_socket_id: u32,
}

impl View for BlockingSocketStack {
    type V = StackView;

    closed spec fn view(&self) -> StackView {
        StackView {
            endpoint: self.endpoint,
            current: self.current_socket_id,
            last: self.last_socket_id,
        }
    }
}

impl StackView {
    /// The live id, if any, is the last one handed out.
    pub open spec fn wf(self) -> bool {
        self.current matches Some(id) ==> id.0 == self.last
    }

    /// The error for an id that is not the live one, or none.
    pub open spec fn id_error(self, got: Option<SocketId>) -> Option<SocketError> {
        if got == self.current {
            None
        } else {
            Some(SocketError::UnexpectedSocketId { expected: self.current, got })
        }
    }

    /// Opening a logical connection: the result, and the state after it.
    pub open spec fn open_spec(self) -> (Result<SocketId, SocketError>, StackView) {
        match self.id_error(None) {
            Some(e) => (Err(e), self),
            None => {
                let id = SocketId((self.last + 1) as u32);
                (Ok(id), StackView { current: Some(id), last: id.0, ..self })
            },
        }
    }

    pub open spec fn connect_spec(self, id: SocketId, remote: Endpoint, established: bool) -> Result<
        (),
        NbError,
    > {
        match self.id_error(Some(id)) {
            Some(e) => Err(NbError::Other(e)),
            None => if remote != self.endpoint {
                Err(
                    NbError::Other(
                        SocketError::UnexpectedAddr { expected: self.endpoint, got: remote },
                    ),
                )
            } else if established {
                Ok(())
            } else {
                Err(NbError::WouldBlock)
            },
        }
    }

    /// Sending `len` bytes on a socket with `capacity` bytes of send buffer, `queued` of which
    /// are taken: the number of bytes to write now.
    pub open spec fn send_spec(
        self,
        id: SocketId,
        len: usize,
        capacity: usize,
        queued: usize,
    ) -> Result<usize, NbError> {
        match self.id_error(Some(id)) {
            Some(e) => Err(NbError::Other(e)),
            None => {
                let window: int = if queued < capacity {
                    capacity - queued
                } else {
                    0
                };
                if window == 0 {
                    Err(NbError::WouldBlock)
                } else if len < window {
                    Ok(len)
                } else {
                    Ok(window as usize)
                }
            },
        }
    }

    /// Receiving on a socket that `may_recv` (it is still open for reading) and `can_recv`
    /// (data is buffered): `Ok` when a read is to be made now.
    pub open spec fn receive_spec(self, id: SocketId, may_recv: bool, can_recv: bool) -> Result<
        (),
        NbError,
    > {
        match self.id_error(Some(id)) {
            Some(e) => Err(NbError::Other(e)),
            None => if !may_recv {
                Err(NbError::Other(SocketError::ConnectionReset))
            } else if !can_recv {
                Err(NbError::WouldBlock)
            } else {
                Ok(())
            },
        }
    }

    pub open spec fn close_spec(self, id: SocketId) -> (Result<(), SocketError>, StackView) {
        match self.id_error(Some(id)) {
            Some(e) => (Err(e), self),
            None => (Ok(()), StackView { current: None, ..self }),
        }
    }
}

impl BlockingSocketStack {
    pub fn new(endpoint: Endpoint) -> (r: BlockingSocketStack)
        ensures
            r@ == (StackView { endpoint, current: None, last: 0 }),
            r@.wf(),
    {
        BlockingSocketStack { endpoint, current_socket_id: None, last_socket_id: 0 }
    }

    /// The id of the live logical connection.
    pub fn current_socket_id(&self) -> (r: Option<SocketId>)
        ensures
            r == self@.current,
    {
        self.current_socket_id
    }

    /// The last id handed out.
    pub fn last_socket_id(&self) -> (r: u32)
        ensures
            r == self@.last,
    {
        self.last_socket_id
    }

    /// Checks that `got` is the id of the live logical connection. Callers check the id with
    /// it before they read the real socket's status.
    pub fn check_socket(&self, got: Option<SocketId>) -> (r: Result<(), SocketError>)
        ensures
            r == (match self@.id_error(got) {
                Some(e) => Err(e),
                None => Ok(()),
            }),
    {
        if got != self.current_socket_id {
            Err(SocketError::UnexpectedSocketId { expected: self.current_socket_id, got })
        } else {
            Ok(())
        }
    }

    /// Opens the logical connection. Fails while one is open.
    pub fn socket(&mut self) -> (r: Result<SocketId, SocketError>)
        requires
            old(self)@.wf(),
            old(self)@.current is None ==> old(self)@.last < u32::MAX,
        ensures
            (r, final(self)@) == old(self)@.open_spec(),
            final(self)@.wf(),
    {
        match self.check_socket(None) {
            Err(e) => Err(e),
            Ok(()) => {
                self.last_socket_id = self.last_socket_id + 1;
                let new_id = SocketId(self.last_socket_id);
                self.current_socket_id = Some(new_id);
                Ok(new_id)
            },
        }
    }

    /// Checks a connection request. `established` tells whether the real socket is connected;
    /// establishing the connection is left to the caller.
    pub fn connect(&self, socket: SocketId, remote: Endpoint, established: bool) -> (r: Result<
        (),
        NbError,
    >)
        ensures
            r == self@.connect_spec(socket, remote, established),
    {
        match self.check_socket(Some(socket)) {
            Err(e) => Err(NbError::Other(e)),
            Ok(()) => {
                if remote != self.endpoint {
                    Err(
                        NbError::Other(
                            SocketError::UnexpectedAddr { expected: self.endpoint, got: remote },
                        ),
                    )
                } else if established {
                    Ok(())
                } else {
                    Err(NbError::WouldBlock)
                }
            },
        }
    }

    /// Decides a send of `len` bytes, given the real socket's send buffer `capacity` and the
    /// bytes `queued` in it. `Ok(n)`: write the first `n` bytes now; the write cannot block.
    pub fn send(&self, socket: SocketId, len: usize, capacity: usize, queued: usize) -> (r: Result<
        usize,
        NbError,
    >)
        ensures
            r == self@.send_spec(socket, len, capacity, queued),
    {
        match self.check_socket(Some(socket)) {
            Err(e) => Err(NbError::Other(e)),
            Ok(()) => {
                let window: usize = if queued < capacity {
                    capacity - queued
                } else {
                    0
                };
                if window == 0 {
                    Err(NbError::WouldBlock)
                } else if len < window {
                    Ok(len)
                } else {
                    Ok(window)
                }
            },
        }
    }

    /// Decides a receive. A socket closed for reading reports a reset even with buffered data.
    /// `Ok(())`: read now; the read cannot block.
    pub fn receive(&self, socket: SocketId, may_recv: bool, can_recv: bool) -> (r: Result<
        (),
        NbError,
    >)
        ensures
            r == self@.receive_spec(socket, may_recv, can_recv),
    {
        match self.check_socket(Some(socket)) {
            Err(e) => Err(NbError::Other(e)),
            Ok(()) => {
                if !may_recv {
                    Err(NbError::Other(SocketError::ConnectionReset))
                } else if !can_recv {
                    Err(NbError::WouldBlock)
                } else {
                    Ok(())
                }
            },
        }
    }

    /// Frees the logical connection. On `Ok` the caller half-closes the real socket.
    pub fn close(&mut self, socket: SocketId) -> (r: Result<(), SocketError>)
        requires
            old(self)@.wf(),
        ensures
            (r, final(self)@) == old(self)@.close_spec(socket),
            final(self)@.wf(),
    {
        match self.check_socket(Some(socket)) {
            Err(e) => Err(e),
            Ok(()) => {
                self.current_socket_id = None;
                Ok(())
            },
        }
    }
}

/// Opening a second logical connection without closing the first fails with an id
/// mismatch, and leaves the adapter as it was: the live id and the last id handed out stay.
pub proof fn lemma_second_open_fails(s: StackView)
    requires
        s.wf(),
        s.current is None ==> s.last < u32::MAX,
    ensures
        ({
            let (r1, s1) = s.open_spec();
            let (r2, s2) = s1.open_spec();
            r1 matches Ok(id1) ==> r2 == Err::<SocketId, SocketError>(
                SocketError::UnexpectedSocketId { expected: Some(id1), got: None },
            ) && s2 == s1 && s2.current == Some(id1) && s2.last == id1.0
        }),
{
}

/// An id that is not the live one fails every operation with an id mismatch, whatever the
/// real socket's status, and closing with it changes nothing.
pub proof fn lemma_stale_id_fails(
    s: StackView,
    id: SocketId,
    len: usize,
    capacity: usize,
    queued: usize,
    may_recv: bool,
    can_recv: bool,
)
    requires
        s.current != Some(id),
    ensures
        ({
            let e = SocketError::UnexpectedSocketId { expected: s.current, got: Some(id) };
            &&& s.send_spec(id, len, capacity, queued) == Err::<usize, NbError>(NbError::Other(e))
            &&& s.receive_spec(id, may_recv, can_recv) == Err::<(), NbError>(NbError::Other(e))
            &&& s.close_spec(id) == (Err::<(), SocketError>(e), s)
        }),
{
}

/// Ids grow strictly with every logical connection opened.
pub proof fn lemma_ids_increase(s: StackView)
    requires
        s.wf(),
        s.current is None ==> s.last < u32::MAX,
    ensures
        s.open_spec().0 matches Ok(id) ==> id.0 > s.last && s.open_spec().1.last == id.0,
{
}

} // verus!
