use vstd::prelude::*;

use crate::errno::Failure;
use crate::request::{encode_write, write_request};
use crate::response::{decode_written, written_response};

verus! {

/// The most bytes of data one write request carries, so that the request and
/// its framing stay below the server's receive buffer.
pub const WRITE_CHUNK: usize = 4000;

/// The state of a write as values: where it goes, what it writes, and how many
/// bytes the server has taken so far.
pub struct WriteView {
    pub ino: u64,
    pub offset: i64,
    pub data: Seq<u8>,
    pub cursor: nat,
}

/// The length of the chunk that starts at `cursor` in data of `len` bytes.
pub open spec fn chunk_len(len: nat, cursor: nat) -> nat {
    if len - cursor < WRITE_CHUNK {
        (len - cursor) as nat
    } else {
        WRITE_CHUNK as nat
    }
}

/// The request for the chunk at the cursor: the bytes from the cursor on, at
/// most one chunk of them, written at the file position `offset + cursor`.
pub open spec fn chunk_request(v: WriteView) -> Seq<u8> {
    write_request(
        v.ino,
        v.offset + v.cursor,
        v.data.subrange(v.cursor as int, (v.cursor + chunk_len(v.data.len(), v.cursor)) as int),
    )
}

/// State `v` once the server has taken `n` more bytes.
pub open spec fn advanced(v: WriteView, n: nat) -> WriteView {
    WriteView { cursor: v.cursor + n, ..v }
}

/// What the caller does next.
pub enum WriteStep {
    /// Send this request and hand the reply to `on_response`.
    Send(Vec<u8>),
    /// The write is over: the total number of bytes written, or why it failed.
    Done(Result<u32, Failure>),
}

/// The step that follows state `v`: the next chunk while data is left, else the
/// total.
pub open spec fn is_next_step(v: WriteView, r: WriteStep) -> bool {
    if v.cursor < v.data.len() {
        r is Send && r->Send_0@ == chunk_request(v)
    } else {
        r == WriteStep::Done(Ok(v.data.len() as u32))
    }
}

/// A write of data in chunks, one request and reply at a time, that honours
/// the length the server reports for each chunk.
pub struct WriteSession {
    ino: u64,
    offset: i64,
    data: Vec<u8>,
    cursor: usize,
}

impl View for WriteSession {
    type V = WriteView;

    closed spec fn view(&self) -> WriteView {
        WriteView { ino: self.ino, offset: self.offset, data: self.data@, cursor: self.cursor as nat }
    }
}

impl WriteSession {
    /// The cursor stays within the data; every file position and the total fit
    /// their types.
    pub open spec fn wf(&self) -> bool {
        &&& self@.cursor <= self@.data.len()
        &&& self@.offset + self@.data.len() <= i64::MAX
        &&& self@.data.len() <= u32::MAX
    }

    /// Starts a write of `data` at position `offset` of node `ino`.
    pub fn new(ino: u64, offset: i64, data: Vec<u8>) -> (s: Self)
        requires
            offset + data@.len() <= i64::MAX,
            data@.len() <= u32::MAX,
        ensures
            s.wf(),
            s@ == (WriteView { ino, offset, data: data@, cursor: 0 }),
    {
        WriteSession { ino, offset, data, cursor: 0 }
    }

    /// The step for the current state.
    pub fn next_step(&self) -> (r: WriteStep)
        requires
            self.wf(),
        ensures
            is_next_step(self@, r),
    {
        let len = self.data.len();
        if self.cursor < len {
            let n: usize = if len - self.cursor < WRITE_CHUNK {
                len - self.cursor
            } else {
                WRITE_CHUNK
            };
            let chunk = vstd::slice::slice_subrange(self.data.as_slice(), self.cursor, self.cursor + n);
            let pos: i64 = self.offset + self.cursor as i64;
            WriteStep::Send(encode_write(self.ino, pos, chunk))
        } else {
            WriteStep::Done(Ok(len as u32))
        }
    }

    /// Takes the reply to the request for the chunk at the cursor. On `Ok n` with
    /// `n` at most the chunk's length the cursor moves on by `n` and the next
    /// step follows; a larger `n` is malformed. On any failure the write stops at
    /// once with that failure, and what was written stays written.
    pub fn on_response(&mut self, resp: &[u8]) -> (r: WriteStep)
        requires
            old(self).wf(),
            old(self)@.cursor < old(self)@.data.len(),
        ensures
            final(self).wf(),
            match written_response(resp@) {
                Ok(n) => if n <= chunk_len(old(self)@.data.len(), old(self)@.cursor) {
                    &&& final(self)@ == advanced(old(self)@, n as nat)
                    &&& is_next_step(final(self)@, r)
                } else {
                    &&& final(self)@ == old(self)@
                    &&& r == WriteStep::Done(Err(Failure::Malformed))
                },
                Err(f) => {
                    &&& final(self)@ == old(self)@
                    &&& r == WriteStep::Done(Err(f))
                },
            },
    {
        match decode_written(resp) {
            Ok(n) => {
                let len = self.data.len();
                let chunk: usize = if len - self.cursor < WRITE_CHUNK {
                    len - self.cursor
                } else {
                    WRITE_CHUNK
                };
                if n as usize <= chunk {
                    self.cursor = self.cursor + n as usize;
                    self.next_step()
                } else {
                    WriteStep::Done(Err(Failure::Malformed))
                }
            },
            Err(f) => WriteStep::Done(Err(f)),
        }
    }
}

/// The requests a session in state `v` sends, in order, when the server takes
/// every chunk whole: the chunk request of each state it passes through, each
/// reply moving the cursor as `on_response` does.
pub open spec fn whole_run(v: WriteView) -> Seq<Seq<u8>>
    decreases v.data.len() - v.cursor,
{
    if v.cursor >= v.data.len() {
        Seq::empty()
    } else {
        seq![chunk_request(v)] + whole_run(advanced(v, chunk_len(v.data.len(), v.cursor)))
    }
}

/// The state such a run ends in.
pub open spec fn whole_run_end(v: WriteView) -> WriteView
    decreases v.data.len() - v.cursor,
{
    if v.cursor >= v.data.len() {
        v
    } else {
        whole_run_end(advanced(v, chunk_len(v.data.len(), v.cursor)))
    }
}

/// The chunk that starts `start` bytes into data of `len` bytes ends at the
/// smaller of `start + 4000` and `len`.
pub open spec fn chunk_end(len: nat, start: nat) -> nat {
    if start + WRITE_CHUNK < len {
        (start + WRITE_CHUNK) as nat
    } else {
        len
    }
}

proof fn lemma_run_from(v: WriteView, k: nat)
    requires
        v.cursor <= v.data.len(),
    ensures
        whole_run(v).len() == (v.data.len() - v.cursor + 3999) / 4000,
        whole_run_end(v).cursor == v.data.len(),
        whole_run_end(v).data == v.data,
        k < whole_run(v).len() ==> whole_run(v)[k as int] == chunk_request(
            advanced(v, (WRITE_CHUNK * k) as nat),
        ),
    decreases v.data.len() - v.cursor, k,
{
    let len = v.data.len();
    if v.cursor < len {
        let w = advanced(v, chunk_len(len, v.cursor));
        lemma_run_from(w, 0);
        if k > 0 && k < whole_run(v).len() {
            lemma_run_from(w, (k - 1) as nat);
            assert(len - v.cursor >= WRITE_CHUNK);
            assert(whole_run(v)[k as int] == whole_run(w)[k - 1]);
            assert(w.cursor + WRITE_CHUNK * (k - 1) == v.cursor + WRITE_CHUNK * k);
            assert(advanced(w, (WRITE_CHUNK * (k - 1)) as nat) == advanced(
                v,
                (WRITE_CHUNK * k) as nat,
            ));
        }
        if k == 0 {
            assert(advanced(v, (WRITE_CHUNK * k) as nat) == v);
        }
    }
}

/// A write of `n` bytes whose every chunk the server takes whole sends
/// `ceil(n / 4000)` requests; request `k` writes bytes `4000 * k` up to
/// `min(4000 * (k + 1), n)` of the data at file position `offset + 4000 * k`;
/// and the run ends in a state whose next step reports all `n` bytes written.
pub proof fn lemma_whole_chunks(ino: u64, offset: i64, data: Seq<u8>, k: nat)
    requires
        data.len() <= u32::MAX,
    ensures
        ({
            let v = WriteView { ino, offset, data, cursor: 0 };
            let n = data.len();
            &&& whole_run(v).len() == (n + 3999) / 4000
            &&& k < whole_run(v).len() ==> whole_run(v)[k as int] == write_request(
                ino,
                offset + WRITE_CHUNK * k,
                data.subrange(WRITE_CHUNK * k, chunk_end(n, (WRITE_CHUNK * k) as nat) as int),
            )
            &&& is_next_step(whole_run_end(v), WriteStep::Done(Ok(n as u32)))
        }),
{
    let v = WriteView { ino, offset, data, cursor: 0 };
    lemma_run_from(v, k);
    let e = whole_run_end(v);
    assert(e.data.len() == data.len());
    if k < whole_run(v).len() {
        let c = (WRITE_CHUNK * k) as nat;
        assert(c < data.len());
        assert(c + chunk_len(data.len(), c) == chunk_end(data.len(), c));
        assert(advanced(v, c).cursor == c);
    }
}

} // verus!
