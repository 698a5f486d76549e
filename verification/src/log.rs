//! The fixed-size log buffer that the host drains: a four-byte length header
//! in the machine's byte order, followed by the logged lines.
use vstd::prelude::*;
use vstd::utf8::encode_utf8;
use crate::endian::{order_bytes, u32_to_bytes_in, u32_to_ne_bytes};
use crate::text::push_char;

verus! {

/// Size of the log buffer, header included.
pub const LOG_BUFFER_SIZE: usize = 4096;

/// Size of the length header at the start of the buffer.
pub const LOG_HEADER_SIZE: usize = 4;

/// What the log holds: the whole buffer, how many bytes of text follow the
/// header, and the byte order of the header, which is the machine's and
/// stays the same for the buffer's whole life.
pub struct LogModel {
    pub bytes: Seq<u8>,
    pub used: nat,
    pub little_endian: bool,
}

/// The bytes that logging `txt` adds: its UTF-8 encoding and a newline.
pub open spec fn line_bytes(txt: Seq<char>) -> Seq<u8> {
    encode_utf8(txt.push('\n'))
}

/// A buffer of `LOG_BUFFER_SIZE` bytes whose header counts the text after it.
pub struct LogBuffer {
    bytes: Vec<u8>,
    used: u32,
    little_endian: bool,
}

impl View for LogBuffer {
    type V = LogModel;

    closed spec fn view(&self) -> LogModel {
        LogModel { bytes: self.bytes@, used: self.used as nat, little_endian: self.little_endian }
    }
}

/// The buffer is well formed: full size, the text fits, and the header
/// holds the text's length in the buffer's byte order.
pub open spec fn log_wf(m: LogModel) -> bool {
    &&& m.bytes.len() == LOG_BUFFER_SIZE
    &&& LOG_HEADER_SIZE + m.used <= LOG_BUFFER_SIZE
    &&& m.bytes.subrange(0, 4) == order_bytes(m.little_endian, m.used as u32)
}

/// The buffer after `line` was written behind the text held so far, header
/// aside (`log_wf` says what the header holds).
pub open spec fn body_after_write(m: LogModel, line: Seq<u8>) -> Seq<u8> {
    let start = LOG_HEADER_SIZE + m.used;
    m.bytes.subrange(4, start as int) + line + m.bytes.subrange(
        start + line.len(),
        LOG_BUFFER_SIZE as int,
    )
}

/// The model after a line was logged, header aside.
pub open spec fn write_ok(old: LogModel, new: LogModel, txt: Seq<char>) -> bool {
    &&& log_wf(new)
    &&& new.little_endian == old.little_endian
    &&& new.used == old.used + line_bytes(txt).len()
    &&& new.bytes.subrange(4, LOG_BUFFER_SIZE as int) == body_after_write(old, line_bytes(txt))
}

/// The model after the host drained the buffer: the header reads zero and
/// the rest is left as it was.
pub open spec fn drain_model(old: LogModel) -> LogModel {
    LogModel {
        bytes: seq![0u8, 0u8, 0u8, 0u8] + old.bytes.subrange(4, old.bytes.len() as int),
        used: 0,
        little_endian: old.little_endian,
    }
}

impl LogBuffer {
    /// The well-formedness of the buffer.
    pub closed spec fn wf(&self) -> bool {
        &&& log_wf(self@)
        &&& self.bytes@.len() == self.bytes.len()
    }

    /// A well-formed buffer holds `LOG_BUFFER_SIZE` bytes, the text fits,
    /// and the header holds the text's length.
    pub proof fn lemma_wf_log(&self)
        requires
            self.wf(),
        ensures
            log_wf(self@),
    {
    }

    /// An all-zero buffer: no text.
    pub fn new() -> (r: Self)
        ensures
            r.wf(),
            r@.used == 0,
            r@.bytes == Seq::new(LOG_BUFFER_SIZE as nat, |i: int| 0u8),
    {
        let probe = u32_to_ne_bytes(1);
        let little_endian = probe[0] == 1;
        let r = LogBuffer { bytes: vec![0u8; LOG_BUFFER_SIZE], used: 0, little_endian };
        assert(order_bytes(little_endian, 0) =~= seq![0u8, 0u8, 0u8, 0u8]);
        assert(r.bytes@.subrange(0, 4) =~= seq![0u8, 0u8, 0u8, 0u8]);
        assert(r.bytes@ =~= Seq::new(LOG_BUFFER_SIZE as nat, |i: int| 0u8));
        r
    }

    /// How many bytes of text the buffer holds.
    pub fn used(&self) -> (n: u32)
        ensures
            n == self@.used,
    {
        self.used
    }

    /// Whether logging `txt` fits in what is left of the buffer.
    pub fn line_fits(&self, txt: &String) -> (b: bool)
        requires
            self.wf(),
        ensures
            b == (LOG_HEADER_SIZE + self@.used + line_bytes(txt@).len() <= LOG_BUFFER_SIZE),
    {
        let mut line = txt.clone();
        push_char(&mut line, '\n');
        let b = line.as_str().as_bytes();
        b.len() <= LOG_BUFFER_SIZE - LOG_HEADER_SIZE - self.used as usize
    }

    /// Logs `txt` as one line: its bytes and a newline go right behind the
    /// text held so far, and the header is updated to the new length.
    ///
    /// The line must fit: `line_fits` tells whether it does.
    pub fn write_line(&mut self, txt: String)
        requires
            old(self).wf(),
            LOG_HEADER_SIZE + old(self)@.used + line_bytes(txt@).len() <= LOG_BUFFER_SIZE,
        ensures
            final(self).wf(),
            write_ok(old(self)@, final(self)@, txt@),
    {
        let mut line = txt;
        push_char(&mut line, '\n');
        let b = line.as_str().as_bytes();
        let len = b.len();
        let start = self.used as usize;
        let total = self.used + len as u32;
        let header = u32_to_bytes_in(self.little_endian, total);
        self.bytes.set(0, header[0]);
        self.bytes.set(1, header[1]);
        self.bytes.set(2, header[2]);
        self.bytes.set(3, header[3]);
        let ghost after_header = self.bytes@;
        assert(after_header.subrange(0, 4) =~= header@);
        for i in 0..len
            invariant
                len == b@.len(),
                b@ == line_bytes(txt@),
                start == old(self)@.used,
                self.little_endian == old(self).little_endian,
                LOG_HEADER_SIZE + start + len <= LOG_BUFFER_SIZE,
                self.bytes@.len() == LOG_BUFFER_SIZE,
                self.bytes.len() == self.bytes@.len(),
                forall|k: int| 0 <= k < 4 ==> self.bytes@[k] == after_header[k],
                forall|k: int|
                    4 <= k < LOG_BUFFER_SIZE && !(4 + start <= k < 4 + start + i) ==> self.bytes@[k]
                        == old(self).bytes@[k],
                forall|k: int| 0 <= k < i ==> self.bytes@[4 + start + k] == b@[k],
        {
            self.bytes.set(4 + start + i, b[i]);
        }
        self.used = total;
        assert(self.bytes@.subrange(0, 4) =~= header@);
        assert(self.bytes@.subrange(4, LOG_BUFFER_SIZE as int) =~= body_after_write(
            old(self)@,
            line_bytes(txt@),
        ));
    }

    /// Hands the host a copy of the whole buffer and resets the header to
    /// zero, so that the next line is written right behind the header.
    pub fn drain(&mut self) -> (r: Vec<u8>)
        requires
            old(self).wf(),
        ensures
            final(self).wf(),
            r@ == old(self)@.bytes,
            final(self)@ == drain_model(old(self)@),
    {
        let r = self.bytes.clone();
        self.bytes.set(0, 0);
        self.bytes.set(1, 0);
        self.bytes.set(2, 0);
        self.bytes.set(3, 0);
        self.used = 0;
        assert(self.bytes@.subrange(0, 4) =~= seq![0u8, 0u8, 0u8, 0u8]);
        assert(self.bytes@ =~= drain_model(old(self)@).bytes);
        assert(order_bytes(self.little_endian, 0) =~= seq![0u8, 0u8, 0u8, 0u8]);
        r
    }
}

} // verus!
