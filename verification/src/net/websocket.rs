use vstd::prelude::*;

verus! {

/// Message sent to and received from a WebSocket.
#[derive(Debug, PartialEq, Eq, Clone, Hash)]
pub enum Message {
    /// String message.
    Text(String),
    /// ArrayBuffer parsed into bytes.
    Bytes(Vec<u8>),
}

/// The bytes a message carries: the UTF-8 encoding of a text, or the bytes themselves.
pub open spec fn message_bytes(m: Message) -> Seq<u8> {
    match m {
        Message::Text(s) => vstd::utf8::encode_utf8(s@),
        Message::Bytes(b) => b@,
    }
}

impl Message {
    /// The bytes this message carries.
    pub fn into_bytes(self) -> (r: Vec<u8>)
        ensures
            r@ == message_bytes(self),
    {
        match self {
            Message::Text(s) => s.as_str().as_bytes_vec(),
            Message::Bytes(b) => b,
        }
    }
}

/// The state of a WebSocket, as its `readyState` reports it.
#[derive(Debug, Clone, Copy, PartialEq, Eq, Structural, PartialOrd, Ord, Hash)]
pub enum State {
    /// The connection has not yet been established.
    Connecting,
    /// The connection is established and communication is possible.
    Open,
    /// The closing handshake is under way, or `close()` has been called.
    Closing,
    /// The connection has been closed or could not be opened.
    Closed,
}

/// The `readyState` number of a state; the states are listed in this order.
pub open spec fn state_code(s: State) -> u16 {
    match s {
        State::Connecting => 0,
        State::Open => 1,
        State::Closing => 2,
        State::Closed => 3,
    }
}

impl State {
    /// The state that a `readyState` number stands for.
    pub fn from_ready_state(state: u16) -> (r: State)
        requires
            state < 4,
        ensures
            state_code(r) == state,
    {
        if state == 0 {
            State::Connecting
        } else if state == 1 {
            State::Open
        } else if state == 2 {
            State::Closing
        } else {
            State::Closed
        }
    }

    /// The `readyState` number of this state.
    pub fn ready_state(&self) -> (r: u16)
        ensures
            r == state_code(*self),
    {
        match self {
            State::Connecting => 0,
            State::Open => 1,
            State::Closing => 2,
            State::Closed => 3,
        }
    }
}

impl From<State> for u16 {
    /// The `readyState` number of a state.
    fn from(state: State) -> (r: u16) {
        state.ready_state()
    }
}

impl vstd::std_specs::convert::FromSpecImpl<State> for u16 {
    open spec fn obeys_from_spec() -> bool {
        true
    }

    open spec fn from_spec(state: State) -> u16 {
        state_code(state)
    }
}

/// A state's number gives that state back; distinct states have distinct numbers.
pub proof fn lemma_state_codes(s: State, t: State)
    ensures
        state_code(s) < 4,
        (state_code(s) == state_code(t)) == (s == t),
{
}

/// Whether each element of `s` is less than the next.
pub open spec fn strictly_sorted(s: Seq<u16>) -> bool {
    forall|i: int, j: int| 0 <= i < j < s.len() ==> s[i] < s[j]
}

/// Checks whether a slice is strictly sorted: each element is less than the next.
pub fn is_strictly_sorted(slice: &[u16]) -> (r: bool)
    ensures
        r == strictly_sorted(slice@),
{
    let n = slice.len();
    if n == 0 {
        return true;
    }
    let mut i: usize = 1;
    while i < n
        invariant
            n == slice@.len(),
            1 <= i <= n,
            strictly_sorted(slice@.subrange(0, i as int)),
        decreases n - i,
    {
        if slice[i - 1] >= slice[i] {
            assert(!strictly_sorted(slice@)) by {
                assert(slice@[i - 1] >= slice@[i as int]);
            }
            return false;
        }
        assert forall|a: int, b: int| 0 <= a < b < i + 1 implies #[trigger] slice@.subrange(
            0,
            i + 1,
        )[a] < #[trigger] slice@.subrange(0, i + 1)[b] by {
            if b < i {
                assert(slice@.subrange(0, i as int)[a] < slice@.subrange(0, i as int)[b]);
            } else if a < i - 1 {
                assert(slice@.subrange(0, i as int)[a] < slice@.subrange(0, i as int)[i - 1]);
            }
        }
        i = i + 1;
    }
    assert(slice@.subrange(0, n as int) =~= slice@);
    true
}

/// A close event of a WebSocket.
#[derive(Debug, Clone)]
pub struct CloseEvent {
    /// The close code sent by the server.
    pub code: u16,
    /// The reason the server gave for closing.
    pub reason: String,
    /// Whether the connection closed cleanly.
    pub was_clean: bool,
}

/// An error raised by JavaScript, by its name and message.
#[derive(Debug, Clone)]
pub struct JsError {
    /// The name of the error.
    pub name: String,
    /// The message of the error.
    pub message: String,
}

/// Error returned by a WebSocket.
#[derive(Debug)]
#[non_exhaustive]
pub enum WebSocketError {
    /// The `error` event.
    ConnectionError,
    /// The `close` event.
    ConnectionClose(CloseEvent),
    /// A message failed to send.
    MessageSendError(JsError),
}

/// What a read from a WebSocket does with a result of the message stream.
#[derive(Debug, PartialEq, Eq, Structural)]
pub enum ReadOutcome {
    /// The read finishes with this many bytes (zero marks the end of the stream).
    Done(usize),
    /// The read fails with the stream's error.
    Failed,
}

/// How a read treats an error of the stream: a clean close ends the stream, any
/// other error fails the read.
pub open spec fn read_error_outcome_spec(err: WebSocketError) -> ReadOutcome {
    match err {
        WebSocketError::ConnectionClose(e) => if e.was_clean {
            ReadOutcome::Done(0)
        } else {
            ReadOutcome::Failed
        },
        _ => ReadOutcome::Failed,
    }
}

/// How a read treats an error of the stream: a clean close ends the stream, any
/// other error fails the read.
pub fn read_error_outcome(err: &WebSocketError) -> (r: ReadOutcome)
    ensures
        r == read_error_outcome_spec(*err),
{
    match err {
        WebSocketError::ConnectionClose(e) => {
            if e.was_clean {
                ReadOutcome::Done(0)
            } else {
                ReadOutcome::Failed
            }
        },
        _ => ReadOutcome::Failed,
    }
}

/// How flushing or closing the sink reports a result: a close event counts as
/// success.
pub fn sink_result_is_ok(res: &Result<(), WebSocketError>) -> (r: bool)
    ensures
        r == (match res {
            Ok(_) => true,
            Err(WebSocketError::ConnectionClose(_)) => true,
            Err(_) => false,
        }),
{
    match res {
        Ok(_) => true,
        Err(WebSocketError::ConnectionClose(_)) => true,
        Err(_) => false,
    }
}

/// A read of `data` into a buffer that held `old_buf`: `n`, the smaller of the
/// two lengths, bytes are copied to the front of the buffer, the rest of the
/// buffer is untouched, and the bytes of `data` that did not fit become the
/// pending bytes (when all fit, the pending bytes stay as they were).
pub open spec fn read_into(
    old_pending: Option<Seq<u8>>,
    new_pending: Option<Seq<u8>>,
    data: Seq<u8>,
    old_buf: Seq<u8>,
    new_buf: Seq<u8>,
    n: usize,
) -> bool {
    &&& n == if old_buf.len() < data.len() { old_buf.len() } else { data.len() }
    &&& new_buf.len() == old_buf.len()
    &&& new_buf.subrange(0, n as int) == data.subrange(0, n as int)
    &&& new_buf.subrange(n as int, old_buf.len() as int) == old_buf.subrange(
        n as int,
        old_buf.len() as int,
    )
    &&& new_pending == if data.len() > n {
        Some(data.subrange(n as int, data.len() as int))
    } else {
        old_pending
    }
}

/// The reading side of a WebSocket: the bytes of a received message that did not
/// fit into the buffer of an earlier read.
#[derive(Debug)]
pub struct WebSocket {
    read_pending_bytes: Option<Vec<u8>>,
}

impl View for WebSocket {
    type V = Option<Seq<u8>>;

    closed spec fn view(&self) -> Option<Seq<u8>> {
        match self.read_pending_bytes {
            Some(v) => Some(v@),
            None => None,
        }
    }
}

impl WebSocket {
    /// A reading side with no pending bytes.
    pub fn new() -> (r: WebSocket)
        ensures
            r@ == None::<Seq<u8>>,
    {
        WebSocket { read_pending_bytes: None }
    }

    /// Returns whether there are pending bytes left after a read: bytes of a
    /// received message that did not fit into the reader's buffer.
    pub fn has_pending_bytes(&self) -> (r: bool)
        ensures
            r == (self@ is Some),
    {
        self.read_pending_bytes.is_some()
    }

    /// Takes the pending bytes, if any.
    pub fn take_pending_bytes(&mut self) -> (r: Option<Vec<u8>>)
        ensures
            final(self)@ == None::<Seq<u8>>,
            match r {
                Some(v) => old(self)@ == Some(v@),
                None => old(self)@ == None::<Seq<u8>>,
            },
    {
        self.read_pending_bytes.take()
    }

    /// Copies as much of `data` as fits into `buf`, keeps the rest as pending
    /// bytes, and returns the number of bytes copied.
    pub fn read_from(&mut self, data: Vec<u8>, buf: &mut [u8]) -> (n: usize)
        ensures
            read_into(old(self)@, final(self)@, data@, old(buf)@, final(buf)@, n),
    {
        let bytes_to_copy = if buf.len() < data.len() { buf.len() } else { data.len() };
        let mut i: usize = 0;
        while i < bytes_to_copy
            invariant
                bytes_to_copy <= data@.len(),
                bytes_to_copy <= buf@.len(),
                buf@.len() == old(buf)@.len(),
                0 <= i <= bytes_to_copy,
                forall|j: int| 0 <= j < i ==> buf@[j] == data@[j],
                forall|j: int| i <= j < buf@.len() ==> buf@[j] == old(buf)@[j],
            decreases bytes_to_copy - i,
        {
            buf[i] = data[i];
            i = i + 1;
        }
        assert(buf@.subrange(0, bytes_to_copy as int) =~= data@.subrange(0, bytes_to_copy as int));
        assert(buf@.subrange(bytes_to_copy as int, buf@.len() as int) =~= old(buf)@.subrange(
            bytes_to_copy as int,
            old(buf)@.len() as int,
        ));
        if data.len() > bytes_to_copy {
            let mut data = data;
            let rest = data.split_off(bytes_to_copy);
            self.read_pending_bytes = Some(rest);
        }
        bytes_to_copy
    }

    /// Reads the next item of the message stream into `buf`, as a read does
    /// when no bytes are pending: the end of the stream and a clean close read
    /// zero bytes, another error is returned, and a message is read with
    /// `read_from`.
    pub fn read_message(
        &mut self,
        item: Option<Result<Message, WebSocketError>>,
        buf: &mut [u8],
    ) -> (r: Result<usize, WebSocketError>)
        ensures
            match item {
                None => r == Ok::<usize, WebSocketError>(0) && final(self)@ == old(self)@
                    && final(buf)@ == old(buf)@,
                Some(Err(e)) => final(self)@ == old(self)@ && final(buf)@ == old(buf)@ && (
                match read_error_outcome_spec(e) {
                    ReadOutcome::Done(k) => r == Ok::<usize, WebSocketError>(k),
                    ReadOutcome::Failed => r == Err::<usize, WebSocketError>(e),
                }),
                Some(Ok(m)) => r matches Ok(n) && read_into(
                    old(self)@,
                    final(self)@,
                    message_bytes(m),
                    old(buf)@,
                    final(buf)@,
                    n,
                ),
            },
    {
        match item {
            None => Ok(0),
            Some(Err(e)) => match read_error_outcome(&e) {
                ReadOutcome::Done(k) => Ok(k),
                ReadOutcome::Failed => Err(e),
            },
            Some(Ok(m)) => {
                let data = m.into_bytes();
                let n = self.read_from(data, buf);
                Ok(n)
            },
        }
    }
}

/// A WebSocket's states carry the numbers of `WebSocket.readyState`:
/// `CONNECTING` 0, `OPEN` 1, `CLOSING` 2 and `CLOSED` 3, rising in the order a
/// connection goes through them.
pub proof fn lemma_ready_state_numbers()
    ensures
        state_code(State::Connecting) == 0,
        state_code(State::Open) == 1,
        state_code(State::Closing) == 2,
        state_code(State::Closed) == 3,
{
}

/// A read that meets an error of the stream ends the stream, reading nothing,
/// exactly when the error is a clean close; any other error fails the read.
pub proof fn lemma_read_error_outcome(e: WebSocketError)
    ensures
        (read_error_outcome_spec(e) is Done) == (e matches WebSocketError::ConnectionClose(c) && c.was_clean),
        read_error_outcome_spec(e) matches ReadOutcome::Done(n) ==> n == 0,
{
}

/// A read loses no byte and invents none: when the data does not fit, the
/// bytes copied and the bytes kept pending put together are the data; when it
/// fits, all of it is copied. The count copied is never more than the buffer
/// holds or the data has.
pub proof fn lemma_read_into_keeps_all_bytes(
    old_pending: Option<Seq<u8>>,
    new_pending: Option<Seq<u8>>,
    data: Seq<u8>,
    old_buf: Seq<u8>,
    new_buf: Seq<u8>,
    n: usize,
)
    requires
        read_into(old_pending, new_pending, data, old_buf, new_buf, n),
    ensures
        n <= old_buf.len(),
        n <= data.len(),
        n == old_buf.len() || n == data.len(),
        data.len() > n ==> (new_pending matches Some(rest) && new_buf.subrange(0, n as int) + rest == data),
        data.len() <= n ==> new_buf.subrange(0, data.len() as int) == data && new_pending == old_pending,
{
    if data.len() > n {
        assert(new_buf.subrange(0, n as int) + data.subrange(n as int, data.len() as int) =~= data);
    } else {
        assert(data.subrange(0, n as int) =~= data);
    }
}

} // verus!
