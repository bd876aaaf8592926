use vstd::prelude::*;
use vstd::string::StringSliceAdditionalSpecFns;
use vstd::utf8::encode_utf8;

use crate::errno::Errno;
use crate::unix_addr::MAX_PATH_LEN;
use crate::ring_buf::{concat, RingBuf, DEFAULT_BUF_SIZE};

verus! {

pub const POLLIN: u32 = 0x1;
pub const POLLOUT: u32 = 0x4;
pub const POLLHUP: u32 = 0x10;
pub const POLLRDNORM: u32 = 0x40;
pub const POLLWRNORM: u32 = 0x100;
pub const POLLWRBAND: u32 = 0x200;
pub const POLLRDHUP: u32 = 0x2000;

/// One side of a connected pair: it reads one queue and writes the other,
/// and knows its peer, whose name it may look up while the peer lives.
pub struct EndPoint {
    pub name: Option<String>,
    pub reader: usize,
    pub writer: usize,
    pub peer: usize,
    pub alive: bool,
    pub blocking: bool,
}

/// Every endpoint and every queue, each named by its index.
pub struct Channels {
    pub bufs: Vec<RingBuf>,
    pub ends: Vec<EndPoint>,
}

/// The poll flags of an endpoint that reads `rb` and writes `wb`.
pub open spec fn spec_poll(rb: RingBuf, wb: RingBuf) -> u32 {
    let can_read = rb.data@.len() > 0;
    let readable = can_read && rb.writer_open;
    let writable = wb.data@.len() < wb.capacity && wb.reader_open;
    if readable != writable {
        if readable {
            POLLRDHUP | POLLIN | POLLRDNORM
        } else {
            POLLRDHUP
        }
    } else if readable {
        POLLIN | POLLOUT | POLLRDNORM | POLLWRNORM
    } else {
        POLLHUP
    }
}

impl Channels {
    /// Each queue keeps its bound; each endpoint's queues and peer exist,
    /// and the peer of an endpoint reads what it writes and writes what it reads.
    pub open spec fn wf(&self) -> bool {
        &&& forall|i: int| 0 <= i < self.bufs@.len() ==> (#[trigger] self.bufs@[i]).wf()
        &&& forall|i: int|
            0 <= i < self.ends@.len() ==> {
                let e = #[trigger] self.ends@[i];
                &&& e.reader < self.bufs@.len()
                &&& e.writer < self.bufs@.len()
                &&& e.reader != e.writer
                &&& e.peer < self.ends@.len()
                &&& self.ends@[e.peer as int].peer == i
                &&& self.ends@[e.peer as int].reader == e.writer
                &&& self.ends@[e.peer as int].writer == e.reader
                &&& e.name matches Some(n) ==> encode_utf8(n@).len() <= MAX_PATH_LEN
            }
    }

    /// The queue that endpoint `id` reads.
    pub open spec fn rbuf(&self, id: int) -> RingBuf {
        self.bufs@[self.ends@[id].reader as int]
    }

    /// The queue that endpoint `id` writes.
    pub open spec fn wbuf(&self, id: int) -> RingBuf {
        self.bufs@[self.ends@[id].writer as int]
    }

    /// `new` differs from `self` at most in queue `k`.
    pub open spec fn same_but_buf(&self, new: Channels, k: int) -> bool {
        &&& new.ends@ == self.ends@
        &&& new.bufs@.len() == self.bufs@.len()
        &&& forall|j: int| 0 <= j < self.bufs@.len() && j != k ==> new.bufs@[j] == self.bufs@[j]
    }

    /// No endpoint and no queue.
    pub fn new() -> (r: Channels)
        ensures
            r.wf(),
            r.bufs@.len() == 0,
            r.ends@.len() == 0,
    {
        Channels { bufs: Vec::new(), ends: Vec::new() }
    }
}

impl EndPoint {
    /// Two new endpoints `(a, b)` over two new empty queues, each reading
    /// what the other writes.
    pub fn new_duplex_channel(ch: &mut Channels) -> (r: (usize, usize))
        requires
            old(ch).wf(),
            old(ch).bufs@.len() + 2 <= usize::MAX,
            old(ch).ends@.len() + 2 <= usize::MAX,
        ensures
            final(ch).wf(),
            r.0 == old(ch).ends@.len(),
            r.1 == old(ch).ends@.len() + 1,
            final(ch).ends@.len() == old(ch).ends@.len() + 2,
            final(ch).bufs@.len() == old(ch).bufs@.len() + 2,
            final(ch).ends@.subrange(0, old(ch).ends@.len() as int) == old(ch).ends@,
            final(ch).bufs@.subrange(0, old(ch).bufs@.len() as int) == old(ch).bufs@,
            final(ch).ends@[r.0 as int].peer == r.1,
            final(ch).ends@[r.1 as int].peer == r.0,
            final(ch).ends@[r.0 as int].reader == old(ch).bufs@.len(),
            final(ch).ends@[r.0 as int].writer == old(ch).bufs@.len() + 1,
            final(ch).ends@[r.0 as int].name is None,
            final(ch).ends@[r.1 as int].name is None,
            final(ch).ends@[r.0 as int].alive && final(ch).ends@[r.1 as int].alive,
            final(ch).ends@[r.0 as int].blocking && final(ch).ends@[r.1 as int].blocking,
            final(ch).rbuf(r.0 as int).data@.len() == 0,
            final(ch).rbuf(r.1 as int).data@.len() == 0,
            final(ch).rbuf(r.0 as int).capacity == DEFAULT_BUF_SIZE,
            final(ch).rbuf(r.1 as int).capacity == DEFAULT_BUF_SIZE,
            final(ch).rbuf(r.0 as int).reader_open && final(ch).rbuf(r.0 as int).writer_open,
            final(ch).rbuf(r.1 as int).reader_open && final(ch).rbuf(r.1 as int).writer_open,
    {
        let buf_a = ch.bufs.len();
        let buf_b = buf_a + 1;
        let end_a = ch.ends.len();
        let end_b = end_a + 1;
        ch.bufs.push(RingBuf::new(DEFAULT_BUF_SIZE));
        ch.bufs.push(RingBuf::new(DEFAULT_BUF_SIZE));
        ch.ends.push(
            EndPoint {
                name: None,
                reader: buf_a,
                writer: buf_b,
                peer: end_b,
                alive: true,
                blocking: true,
            },
        );
        ch.ends.push(
            EndPoint {
                name: None,
                reader: buf_b,
                writer: buf_a,
                peer: end_a,
                alive: true,
                blocking: true,
            },
        );
        proof {
            assert(ch.ends@.subrange(0, end_a as int) =~= old(ch).ends@);
            assert(ch.bufs@.subrange(0, buf_a as int) =~= old(ch).bufs@);
            assert forall|i: int| 0 <= i < ch.ends@.len() implies {
                let e = #[trigger] ch.ends@[i];
                &&& e.reader < ch.bufs@.len()
                &&& e.writer < ch.bufs@.len()
                &&& e.reader != e.writer
                &&& e.peer < ch.ends@.len()
                &&& ch.ends@[e.peer as int].peer == i
                &&& ch.ends@[e.peer as int].reader == e.writer
                &&& ch.ends@[e.peer as int].writer == e.reader
                &&& e.name matches Some(n) ==> encode_utf8(n@).len() <= MAX_PATH_LEN
            } by {
                if i < end_a {
                    assert(old(ch).ends@[i] == ch.ends@[i]);
                    let p = old(ch).ends@[i].peer as int;
                    assert(old(ch).ends@[p] == ch.ends@[p]);
                }
            }
            assert forall|i: int| 0 <= i < ch.bufs@.len() implies (#[trigger] ch.bufs@[i]).wf() by {
                if i < buf_a {
                    assert(old(ch).bufs@[i] == ch.bufs@[i]);
                }
            }
        }
        (end_a, end_b)
    }

    /// Gives endpoint `id` a name, which its peer reports as the peer's name.
    pub fn set_name(ch: &mut Channels, id: usize, name: &str)
        requires
            old(ch).wf(),
            id < old(ch).ends@.len(),
            name.spec_bytes().len() <= MAX_PATH_LEN,
        ensures
            final(ch).wf(),
            final(ch).bufs@ == old(ch).bufs@,
            final(ch).ends@.len() == old(ch).ends@.len(),
            forall|j: int| 0 <= j < old(ch).ends@.len() && j != id ==> final(ch).ends@[j] == old(ch).ends@[j],
            final(ch).ends@[id as int].name matches Some(n) && n@ == name@,
            final(ch).ends@[id as int].reader == old(ch).ends@[id as int].reader,
            final(ch).ends@[id as int].writer == old(ch).ends@[id as int].writer,
            final(ch).ends@[id as int].peer == old(ch).ends@[id as int].peer,
            final(ch).ends@[id as int].alive == old(ch).ends@[id as int].alive,
            final(ch).ends@[id as int].blocking == old(ch).ends@[id as int].blocking,
    {
        ch.ends[id].name = Some(name.to_owned());
        proof {
            assert forall|i: int| 0 <= i < ch.ends@.len() implies {
                let e = #[trigger] ch.ends@[i];
                &&& e.reader < ch.bufs@.len()
                &&& e.writer < ch.bufs@.len()
                &&& e.reader != e.writer
                &&& e.peer < ch.ends@.len()
                &&& ch.ends@[e.peer as int].peer == i
                &&& ch.ends@[e.peer as int].reader == e.writer
                &&& ch.ends@[e.peer as int].writer == e.reader
                &&& e.name matches Some(n) ==> encode_utf8(n@).len() <= MAX_PATH_LEN
            } by {
                assert(old(ch).ends@[i].peer == ch.ends@[i].peer);
                let p = old(ch).ends@[i].peer as int;
                assert(old(ch).ends@[p].peer == ch.ends@[p].peer);
            }
        }
    }

    /// The name of the peer of endpoint `id`, while the peer lives and has one.
    pub fn peer_name(ch: &Channels, id: usize) -> (r: Option<String>)
        requires
            ch.wf(),
            id < ch.ends@.len(),
        ensures
            ({
                let p = ch.ends@[ch.ends@[id as int].peer as int];
                &&& (p.alive && p.name is Some) <==> r is Some
                &&& r matches Some(n) ==> p.name matches Some(m) && n@ == m@
            }),
    {
        let p = ch.ends[id].peer;
        if !ch.ends[p].alive {
            return None;
        }
        match &ch.ends[p].name {
            Some(n) => Some(n.clone()),
            None => None,
        }
    }

    /// Sets the blocking mode of both halves of endpoint `id`.
    pub fn set_blocking_mode(ch: &mut Channels, id: usize, blocking: bool)
        requires
            old(ch).wf(),
            id < old(ch).ends@.len(),
        ensures
            final(ch).wf(),
            final(ch).bufs@ == old(ch).bufs@,
            final(ch).ends@.len() == old(ch).ends@.len(),
            forall|j: int| 0 <= j < old(ch).ends@.len() && j != id ==> final(ch).ends@[j] == old(ch).ends@[j],
            final(ch).ends@[id as int] == (EndPoint { blocking, ..old(ch).ends@[id as int] }),
    {
        ch.ends[id].blocking = blocking;
        proof {
            assert forall|i: int| 0 <= i < ch.ends@.len() implies {
                let e = #[trigger] ch.ends@[i];
                &&& e.reader < ch.bufs@.len()
                &&& e.writer < ch.bufs@.len()
                &&& e.reader != e.writer
                &&& e.peer < ch.ends@.len()
                &&& ch.ends@[e.peer as int].peer == i
                &&& ch.ends@[e.peer as int].reader == e.writer
                &&& ch.ends@[e.peer as int].writer == e.reader
                &&& e.name matches Some(n) ==> encode_utf8(n@).len() <= MAX_PATH_LEN
            } by {
                assert(old(ch).ends@[i].peer == ch.ends@[i].peer);
                let p = old(ch).ends@[i].peer as int;
                assert(old(ch).ends@[p].peer == ch.ends@[p].peer);
            }
        }
    }

    /// Switches both halves of endpoint `id` to non-blocking mode.
    pub fn set_non_blocking(ch: &mut Channels, id: usize)
        requires
            old(ch).wf(),
            id < old(ch).ends@.len(),
        ensures
            final(ch).wf(),
            final(ch).bufs@ == old(ch).bufs@,
            final(ch).ends@ == old(ch).ends@.update(id as int, EndPoint { blocking: false, ..old(ch).ends@[id as int] }),
    {
        EndPoint::set_blocking_mode(ch, id, false);
        proof {
            assert(ch.ends@ =~= old(ch).ends@.update(id as int, EndPoint { blocking: false, ..old(ch).ends@[id as int] }));
        }
    }

    /// Switches both halves of endpoint `id` to blocking mode.
    pub fn set_blocking(ch: &mut Channels, id: usize)
        requires
            old(ch).wf(),
            id < old(ch).ends@.len(),
        ensures
            final(ch).wf(),
            final(ch).bufs@ == old(ch).bufs@,
            final(ch).ends@ == old(ch).ends@.update(id as int, EndPoint { blocking: true, ..old(ch).ends@[id as int] }),
    {
        EndPoint::set_blocking_mode(ch, id, true);
        proof {
            assert(ch.ends@ =~= old(ch).ends@.update(id as int, EndPoint { blocking: true, ..old(ch).ends@[id as int] }));
        }
    }

    /// Reads from the queue of endpoint `id` into `buf`.
    pub fn read(ch: &mut Channels, id: usize, buf: &mut [u8]) -> (r: Result<usize, Errno>)
        requires
            old(ch).wf(),
            id < old(ch).ends@.len(),
        ensures
            final(ch).wf(),
            old(ch).same_but_buf(*final(ch), old(ch).ends@[id as int].reader as int),
            old(ch).rbuf(id as int).read_step(final(ch).rbuf(id as int), old(buf)@, final(buf)@, r),
    {
        let k = ch.ends[id].reader;
        let r = ch.bufs[k].read_from_buffer(buf);
        proof {
            assert forall|i: int| 0 <= i < ch.bufs@.len() implies (#[trigger] ch.bufs@[i]).wf() by {
                if i != k {
                    assert(old(ch).bufs@[i] == ch.bufs@[i]);
                }
            }
        }
        r
    }

    /// Writes `src` into the queue that endpoint `id` writes.
    pub fn write(ch: &mut Channels, id: usize, src: &[u8]) -> (r: Result<usize, Errno>)
        requires
            old(ch).wf(),
            id < old(ch).ends@.len(),
        ensures
            final(ch).wf(),
            old(ch).same_but_buf(*final(ch), old(ch).ends@[id as int].writer as int),
            old(ch).wbuf(id as int).write_step(final(ch).wbuf(id as int), src@, r),
    {
        let k = ch.ends[id].writer;
        let r = ch.bufs[k].write_to_buffer(src);
        proof {
            assert forall|i: int| 0 <= i < ch.bufs@.len() implies (#[trigger] ch.bufs@[i]).wf() by {
                if i != k {
                    assert(old(ch).bufs@[i] == ch.bufs@[i]);
                }
            }
        }
        r
    }

    /// The number of bytes waiting for endpoint `id`.
    pub fn bytes_to_read(ch: &Channels, id: usize) -> (r: usize)
        requires
            ch.wf(),
            id < ch.ends@.len(),
        ensures
            r == ch.rbuf(id as int).data@.len(),
    {
        ch.bufs[ch.ends[id].reader].bytes_to_read()
    }

    /// The poll flags of endpoint `id`.
    pub fn poll(ch: &Channels, id: usize) -> (r: u32)
        requires
            ch.wf(),
            id < ch.ends@.len(),
        ensures
            r == spec_poll(ch.rbuf(id as int), ch.wbuf(id as int)),
    {
        let reader = &ch.bufs[ch.ends[id].reader];
        let writer = &ch.bufs[ch.ends[id].writer];
        let can_read = reader.can_read();
        let readable = can_read && reader.writer_open;
        let writable = writer.can_write() && writer.reader_open;
        if readable != writable {
            if readable {
                POLLRDHUP | POLLIN | POLLRDNORM
            } else {
                POLLRDHUP
            }
        } else if readable {
            POLLIN | POLLOUT | POLLRDNORM | POLLWRNORM
        } else {
            POLLHUP
        }
    }

    /// Releases endpoint `id`: the queue it read loses its reader, the one
    /// it wrote loses its writer, and its peer can no longer see its name.
    pub fn release(ch: &mut Channels, id: usize)
        requires
            old(ch).wf(),
            id < old(ch).ends@.len(),
        ensures
            final(ch).wf(),
            final(ch).ends@.len() == old(ch).ends@.len(),
            final(ch).bufs@.len() == old(ch).bufs@.len(),
            forall|j: int| 0 <= j < old(ch).ends@.len() && j != id ==> final(ch).ends@[j] == old(ch).ends@[j],
            final(ch).ends@[id as int] == (EndPoint { alive: false, ..old(ch).ends@[id as int] }),
            ({
                let r = old(ch).ends@[id as int].reader as int;
                let w = old(ch).ends@[id as int].writer as int;
                &&& forall|j: int| 0 <= j < old(ch).bufs@.len() && j != r && j != w ==> final(ch).bufs@[j] == old(ch).bufs@[j]
                &&& final(ch).bufs@[r] == (RingBuf { reader_open: false, ..old(ch).bufs@[r] })
                &&& final(ch).bufs@[w] == (RingBuf { writer_open: false, ..old(ch).bufs@[w] })
            }),
    {
        let r = ch.ends[id].reader;
        let w = ch.ends[id].writer;
        ch.bufs[r].reader_open = false;
        ch.bufs[w].writer_open = false;
        ch.ends[id].alive = false;
        proof {
            assert forall|i: int| 0 <= i < ch.bufs@.len() implies (#[trigger] ch.bufs@[i]).wf() by {
                assert(ch.bufs@[i].data@ == old(ch).bufs@[i].data@);
                assert(ch.bufs@[i].capacity == old(ch).bufs@[i].capacity);
            }
            assert forall|i: int| 0 <= i < ch.ends@.len() implies {
                let e = #[trigger] ch.ends@[i];
                &&& e.reader < ch.bufs@.len()
                &&& e.writer < ch.bufs@.len()
                &&& e.reader != e.writer
                &&& e.peer < ch.ends@.len()
                &&& ch.ends@[e.peer as int].peer == i
                &&& ch.ends@[e.peer as int].reader == e.writer
                &&& ch.ends@[e.peer as int].writer == e.reader
                &&& e.name matches Some(n) ==> encode_utf8(n@).len() <= MAX_PATH_LEN
            } by {
                assert(old(ch).ends@[i].peer == ch.ends@[i].peer);
                let p = old(ch).ends@[i].peer as int;
                assert(old(ch).ends@[p].peer == ch.ends@[p].peer);
            }
        }
    }

    /// Reads from the queue of endpoint `id` into the pieces of `bufs`, as
    /// into one buffer.
    pub fn readv(ch: &mut Channels, id: usize, bufs: &mut Vec<Vec<u8>>) -> (r: Result<usize, Errno>)
        requires
            old(ch).wf(),
            id < old(ch).ends@.len(),
        ensures
            final(ch).wf(),
            old(ch).same_but_buf(*final(ch), old(ch).ends@[id as int].reader as int),
            final(bufs)@.len() == old(bufs)@.len(),
            ({
                let (o, n) = (old(ch).rbuf(id as int), final(ch).rbuf(id as int));
                &&& n.capacity == o.capacity && n.reader_open == o.reader_open && n.writer_open == o.writer_open
                &&& r == o.read_outcome(concat(old(bufs)@).len() as int)
                &&& r matches Ok(k) ==> n.data@ == o.data@.skip(k as int) && concat(final(bufs)@)
                    == o.data@.take(k as int) + concat(old(bufs)@).skip(k as int)
                &&& r is Err ==> n.data@ == o.data@ && final(bufs)@ == old(bufs)@
            }),
    {
        let k = ch.ends[id].reader;
        let r = ch.bufs[k].read_from_vector(bufs);
        proof {
            assert forall|i: int| 0 <= i < ch.bufs@.len() implies (#[trigger] ch.bufs@[i]).wf() by {
                if i != k {
                    assert(old(ch).bufs@[i] == ch.bufs@[i]);
                }
            }
        }
        r
    }

    /// Writes the pieces of `bufs`, as one, into the queue that endpoint
    /// `id` writes.
    pub fn writev(ch: &mut Channels, id: usize, bufs: &Vec<Vec<u8>>) -> (r: Result<usize, Errno>)
        requires
            old(ch).wf(),
            id < old(ch).ends@.len(),
        ensures
            final(ch).wf(),
            old(ch).same_but_buf(*final(ch), old(ch).ends@[id as int].writer as int),
            old(ch).wbuf(id as int).write_step(final(ch).wbuf(id as int), concat(bufs@), r),
    {
        let k = ch.ends[id].writer;
        let r = ch.bufs[k].write_to_vector(bufs);
        proof {
            assert forall|i: int| 0 <= i < ch.bufs@.len() implies (#[trigger] ch.bufs@[i]).wf() by {
                if i != k {
                    assert(old(ch).bufs@[i] == ch.bufs@[i]);
                }
            }
        }
        r
    }
}

} // verus!
