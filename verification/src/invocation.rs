//! The host-function call that the script has asked for and the host has not
//! answered yet, and the record through which the host polls for it.
use vstd::prelude::*;
use vstd::utf8::encode_utf8;
use crate::endian::{native_bytes, u32_to_ne_bytes};

verus! {

/// Size of the buffer through which a pending call is handed to the host.
pub const ARGS_BUFFER_SIZE: usize = 1024;

/// The current call (function id 0 when there is none), the last answer, and
/// whether the script waits for an answer.
pub struct InvocationModel {
    pub function_id: u8,
    pub function_args: Seq<char>,
    pub result: Seq<char>,
    pub waiting: bool,
}

/// The state of the call between script and host.
pub struct InvocationState {
    function_id: u8,
    function_args: String,
    result: String,
    waiting: bool,
}

impl View for InvocationState {
    type V = InvocationModel;

    closed spec fn view(&self) -> InvocationModel {
        InvocationModel {
            function_id: self.function_id,
            function_args: self.function_args@,
            result: self.result@,
            waiting: self.waiting,
        }
    }
}

/// No call is pending and the script waits for nothing: the state of the
/// call at start and after every answer. Nothing in this library starts a
/// call, so every state it reaches is of this kind.
pub open spec fn no_call_pending(m: InvocationModel) -> bool {
    m.function_id == 0 && m.function_args.len() == 0 && !m.waiting
}

/// The model after the host answered with `result`.
pub open spec fn answer_model(m: InvocationModel, result: Seq<char>) -> InvocationModel {
    InvocationModel { function_id: 0, function_args: Seq::empty(), result, waiting: false }
}

/// A pending call fits in the poll buffer: id, four length bytes, arguments.
pub open spec fn record_fits(m: InvocationModel) -> bool {
    m.function_id != 0 ==> 5 + encode_utf8(m.function_args).len() <= ARGS_BUFFER_SIZE
}

/// `new` is the poll buffer `old` after polling in state `m`: with no call
/// pending only the first byte is set, to 0; otherwise the id, the length of
/// the arguments in the machine's byte order, and the arguments' bytes are
/// written at the start, and the rest is left as it was.
pub open spec fn poll_written(old: Seq<u8>, new: Seq<u8>, m: InvocationModel) -> bool {
    let args = encode_utf8(m.function_args);
    let end = 5 + args.len() as int;
    &&& new.len() == old.len()
    &&& if m.function_id == 0 {
        new == old.update(0, 0u8)
    } else {
        &&& new[0] == m.function_id
        &&& native_bytes(new.subrange(1, 5), args.len() as u32)
        &&& new.subrange(5, end) == args
        &&& new.subrange(end, new.len() as int) == old.subrange(end, old.len() as int)
    }
}

impl InvocationState {
    /// Every state of the call has no call pending.
    #[verifier::type_invariant]
    spec fn no_call_pending_inv(self) -> bool {
        no_call_pending(self@)
    }

    /// No call pending, no answer yet.
    pub fn new() -> (r: Self)
        ensures
            r@ == (InvocationModel {
                function_id: 0,
                function_args: Seq::empty(),
                result: Seq::empty(),
                waiting: false,
            }),
    {
        InvocationState {
            function_id: 0,
            function_args: String::new(),
            result: String::new(),
            waiting: false,
        }
    }

    /// The current call: function id (0 for none) and arguments.
    pub fn current_function(&self) -> (r: (u8, String))
        ensures
            r.0 == self@.function_id,
            r.1@ == self@.function_args,
            r.0 == 0,
            r.1@.len() == 0,
    {
        proof {
            use_type_invariant(self);
        }
        (self.function_id, self.function_args.clone())
    }

    /// Whether the script still waits for an answer.
    pub fn is_waiting(&self) -> (b: bool)
        ensures
            b == self@.waiting,
            !b,
    {
        proof {
            use_type_invariant(self);
        }
        self.waiting
    }

    /// The last answer of the host.
    pub fn result(&self) -> (r: String)
        ensures
            r@ == self@.result,
    {
        self.result.clone()
    }

    /// Whether polling now can write its record into the poll buffer.
    pub fn record_fits(&self) -> (b: bool)
        ensures
            b == record_fits(self@),
            b,
    {
        proof {
            use_type_invariant(self);
        }
        self.function_id == 0 || self.function_args.as_str().as_bytes().len() <= ARGS_BUFFER_SIZE - 5
    }

    /// Writes the pending call, if any, into the poll buffer `buf`. As no
    /// call is ever pending, this writes a 0 into the first byte and leaves
    /// the rest alone.
    pub fn write_pending_invocation(&self, buf: &mut Vec<u8>)
        requires
            old(buf)@.len() == ARGS_BUFFER_SIZE,
        ensures
            poll_written(old(buf)@, final(buf)@, self@),
            final(buf)@ == old(buf)@.update(0, 0u8),
    {
        proof {
            use_type_invariant(self);
        }
        if self.function_id != 0 {
            let b = self.function_args.as_str().as_bytes();
            let len = b.len();
            buf.set(0, self.function_id);
            let header = u32_to_ne_bytes(len as u32);
            buf.set(1, header[0]);
            buf.set(2, header[1]);
            buf.set(3, header[2]);
            buf.set(4, header[3]);
            let ghost after_header = buf@;
            assert(after_header.subrange(1, 5) =~= header@);
            assert(after_header[0] == self.function_id);
            for i in 0..len
                invariant
                    len == b@.len(),
                    b@ == encode_utf8(self@.function_args),
                    5 + len <= ARGS_BUFFER_SIZE,
                    buf@.len() == ARGS_BUFFER_SIZE,
                    buf.len() == buf@.len(),
                    forall|k: int| 0 <= k < 5 ==> buf@[k] == after_header[k],
                    forall|k: int| 5 + len <= k < ARGS_BUFFER_SIZE ==> buf@[k] == old(buf)@[k],
                    forall|k: int| 0 <= k < i ==> buf@[5 + k] == b@[k],
            {
                buf.set(5 + i, b[i]);
            }
            assert(buf@[0] == self.function_id);
            assert(buf@.subrange(1, 5) =~= header@);
            assert(buf@.subrange(5, 5 + len) =~= b@);
            assert(buf@.subrange(5 + len, ARGS_BUFFER_SIZE as int) =~= old(buf)@.subrange(
                5 + len,
                ARGS_BUFFER_SIZE as int,
            ));
        } else {
            buf.set(0, 0);
        }
    }
}

/// Records the host's answer to the pending call: the call is over, the
/// script no longer waits, and the answer is kept for it.
pub fn send_result_real(state: &mut InvocationState, result: String)
    ensures
        final(state)@ == answer_model(old(state)@, result@),
{
    proof {
        use_type_invariant(&*state);
    }
    state.result = result;
    state.function_id = 0;
    state.function_args = String::new();
    state.waiting = false;
}

} // verus!
