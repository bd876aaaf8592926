use vstd::prelude::*;

use std::collections::VecDeque;

use crate::errno::Errno;

verus! {

/// The capacity of each direction of a channel, in bytes.
pub const DEFAULT_BUF_SIZE: usize = 208 * 1024;

/// A bounded queue of bytes with one reading half and one writing half;
/// each half is open until its holder releases it. A read or a write that
/// cannot make progress answers `EAGAIN` whatever the blocking mode: a
/// caller in blocking mode waits, on poll, and tries again.
pub struct RingBuf {
    pub data: VecDeque<u8>,
    pub capacity: usize,
    pub reader_open: bool,
    pub writer_open: bool,
}

/// The smaller of two integers.
pub open spec fn min_int(a: int, b: int) -> int {
    if a < b {
        a
    } else {
        b
    }
}

impl RingBuf {
    /// The queue never holds more than its capacity.
    pub open spec fn wf(&self) -> bool {
        self.data@.len() <= self.capacity
    }

    /// The outcome of reading into a buffer of `n` bytes: how many bytes
    /// come out, or the error.
    pub open spec fn read_outcome(&self, n: int) -> Result<usize, Errno> {
        if n == 0 {
            Ok(0usize)
        } else if self.data@.len() > 0 {
            Ok(min_int(n, self.data@.len() as int) as usize)
        } else if !self.writer_open {
            Ok(0usize)
        } else {
            Err(Errno::EAGAIN)
        }
    }

    /// The outcome of writing `n` bytes: how many go in, or the error.
    pub open spec fn write_outcome(&self, n: int) -> Result<usize, Errno> {
        if !self.reader_open {
            Err(Errno::EPIPE)
        } else if n == 0 {
            Ok(0usize)
        } else if self.data@.len() < self.capacity {
            Ok(min_int(n, self.capacity - self.data@.len()) as usize)
        } else {
            Err(Errno::EAGAIN)
        }
    }

    /// `new` is this queue after a read into a buffer that held `ob` and
    /// then holds `nb`, with result `r`: the bytes leave the head in order.
    pub open spec fn read_step(self, new: RingBuf, ob: Seq<u8>, nb: Seq<u8>, r: Result<usize, Errno>) -> bool {
        &&& r == self.read_outcome(ob.len() as int)
        &&& new.capacity == self.capacity
        &&& new.reader_open == self.reader_open
        &&& new.writer_open == self.writer_open
        &&& nb.len() == ob.len()
        &&& r matches Ok(k) ==> new.data@ == self.data@.skip(k as int) && nb == self.data@.take(
            k as int,
        ) + ob.skip(k as int)
        &&& r is Err ==> new.data@ == self.data@ && nb == ob
    }

    /// `new` is this queue after a write of `src` with result `r`: the bytes
    /// that went in are the head of `src`, after what was queued.
    pub open spec fn write_step(self, new: RingBuf, src: Seq<u8>, r: Result<usize, Errno>) -> bool {
        &&& r == self.write_outcome(src.len() as int)
        &&& new.capacity == self.capacity
        &&& new.reader_open == self.reader_open
        &&& new.writer_open == self.writer_open
        &&& r matches Ok(k) ==> new.data@ == self.data@ + src.take(k as int)
        &&& r is Err ==> new.data@ == self.data@
    }

    /// An empty queue of the given capacity, both halves open.
    pub fn new(capacity: usize) -> (r: RingBuf)
        ensures
            r.wf(),
            r.data@.len() == 0,
            r.capacity == capacity,
            r.reader_open && r.writer_open,
    {
        RingBuf { data: VecDeque::new(), capacity, reader_open: true, writer_open: true }
    }

    /// Whether there are bytes to read.
    pub fn can_read(&self) -> (r: bool)
        ensures
            r == (self.data@.len() > 0),
    {
        self.data.len() > 0
    }

    /// Whether there is room to write.
    pub fn can_write(&self) -> (r: bool)
        ensures
            r == (self.data@.len() < self.capacity),
    {
        self.data.len() < self.capacity
    }

    /// The number of bytes waiting to be read.
    pub fn bytes_to_read(&self) -> (r: usize)
        ensures
            r == self.data@.len(),
    {
        self.data.len()
    }

    /// Moves bytes from the head of the queue into the head of `buf`.
    /// With nothing to read, a closed writer reads as the end of the stream
    /// and an open one as `EAGAIN`.
    pub fn read_from_buffer(&mut self, buf: &mut [u8]) -> (r: Result<usize, Errno>)
        requires
            old(self).wf(),
        ensures
            final(self).wf(),
            old(self).read_step(*final(self), old(buf)@, final(buf)@, r),
    {
        let n = buf.len();
        let avail = self.data.len();
        if n == 0 {
            proof {
                assert(old(self).data@.skip(0) =~= old(self).data@);
                assert(old(self).data@.take(0) + old(buf)@.skip(0) =~= old(buf)@);
            }
            return Ok(0);
        }
        if avail == 0 {
            proof {
                assert(old(self).data@.skip(0) =~= old(self).data@);
                assert(old(self).data@.take(0) + old(buf)@.skip(0) =~= old(buf)@);
            }
            if !self.writer_open {
                return Ok(0);
            } else {
                return Err(Errno::EAGAIN);
            }
        }
        let k = if n < avail {
            n
        } else {
            avail
        };
        let mut i: usize = 0;
        while i < k
            invariant
                k <= n == buf@.len() == old(buf)@.len(),
                k <= avail == old(self).data@.len(),
                i <= k,
                self.data@ == old(self).data@.skip(i as int),
                self.capacity == old(self).capacity,
                self.reader_open == old(self).reader_open,
                self.writer_open == old(self).writer_open,
                forall|j: int| 0 <= j < i ==> buf@[j] == old(self).data@[j],
                forall|j: int| i <= j < n ==> buf@[j] == old(buf)@[j],
            decreases k - i,
        {
            let b = self.data.pop_front();
            proof {
                assert(self.data@ =~= old(self).data@.skip(i + 1));
            }
            match b {
                Some(x) => {
                    buf[i] = x;
                },
                None => {},
            }
            i = i + 1;
        }
        proof {
            assert(buf@ =~= old(self).data@.take(k as int) + old(buf)@.skip(k as int));
        }
        Ok(k)
    }

    /// Appends as much of `src` as there is room for. A closed reader
    /// refuses with `EPIPE`; a full queue with `EAGAIN`.
    pub fn write_to_buffer(&mut self, src: &[u8]) -> (r: Result<usize, Errno>)
        requires
            old(self).wf(),
        ensures
            final(self).wf(),
            old(self).write_step(*final(self), src@, r),
    {
        if !self.reader_open {
            return Err(Errno::EPIPE);
        }
        let n = src.len();
        if n == 0 {
            proof {
                assert(old(self).data@ + src@.take(0) =~= old(self).data@);
            }
            return Ok(0);
        }
        let used = self.data.len();
        if used >= self.capacity {
            return Err(Errno::EAGAIN);
        }
        let room = self.capacity - used;
        let k = if n < room {
            n
        } else {
            room
        };
        let mut i: usize = 0;
        while i < k
            invariant
                k <= n == src@.len(),
                k <= room == self.capacity - used,
                used == old(self).data@.len(),
                i <= k,
                self.data@ == old(self).data@ + src@.take(i as int),
                self.capacity == old(self).capacity,
                self.reader_open == old(self).reader_open,
                self.writer_open == old(self).writer_open,
            decreases k - i,
        {
            self.data.push_back(src[i]);
            proof {
                assert(self.data@ =~= old(self).data@ + src@.take(i + 1));
            }
            i = i + 1;
        }
        Ok(k)
    }
}

/// The concatenation of `bufs`, in order.
pub open spec fn concat(bufs: Seq<Vec<u8>>) -> Seq<u8>
    decreases bufs.len(),
{
    if bufs.len() == 0 {
        Seq::empty()
    } else {
        concat(bufs.drop_last()) + bufs.last()@
    }
}

/// The bytes of `bufs`, one after another, in one vector.
pub fn flatten(bufs: &Vec<Vec<u8>>) -> (r: Vec<u8>)
    ensures
        r@ == concat(bufs@),
{
    let mut data: Vec<u8> = Vec::new();
    let mut i: usize = 0;
    while i < bufs.len()
        invariant
            i <= bufs@.len(),
            data@ == concat(bufs@.take(i as int)),
        decreases bufs@.len() - i,
    {
        let piece = &bufs[i];
        let ghost before = data@;
        let mut j: usize = 0;
        while j < piece.len()
            invariant
                j <= piece@.len(),
                data@ == before + piece@.take(j as int),
            decreases piece@.len() - j,
        {
            data.push(piece[j]);
            j = j + 1;
            proof {
                assert(data@ =~= before + piece@.take(j as int));
            }
        }
        proof {
            assert(bufs@.take(i + 1).drop_last() =~= bufs@.take(i as int));
            assert(piece@.take(j as int) =~= piece@);
        }
        i = i + 1;
    }
    proof {
        assert(bufs@.take(i as int) =~= bufs@);
    }
    data
}

/// `concat(old)` with its head replaced by `src`, cut back into pieces of
/// the lengths of `old`: piece `j` of `new` is piece `j` of `old` with the
/// part of `src` that falls on it written over its head.
pub open spec fn scattered(src: Seq<u8>, old: Seq<Vec<u8>>, new: Seq<Vec<u8>>) -> bool {
    &&& new.len() == old.len()
    &&& forall|j: int|
        0 <= j < old.len() ==> {
            let a = min_int(concat(old.take(j)).len() as int, src.len() as int);
            (#[trigger] new[j])@ == crate::address::copied_into(src.subrange(a, src.len() as int), old[j]@)
        }
}

/// The concatenation of the first `m + 1` pieces is that of the first `m`
/// followed by piece `m`.
proof fn lemma_concat_take(bufs: Seq<Vec<u8>>, m: int)
    requires
        0 <= m < bufs.len(),
    ensures
        concat(bufs.take(m + 1)) == concat(bufs.take(m)) + bufs[m]@,
{
    assert(bufs.take(m + 1).drop_last() =~= bufs.take(m));
}

/// Scattering `src` over the pieces of `old` writes `src` over the head of
/// their concatenation.
proof fn lemma_scatter_concat(src: Seq<u8>, old: Seq<Vec<u8>>, new: Seq<Vec<u8>>, m: int)
    requires
        scattered(src, old, new),
        src.len() <= concat(old).len(),
        0 <= m <= old.len(),
    ensures
        ({
            let l = concat(old.take(m)).len() as int;
            let c = min_int(l, src.len() as int);
            concat(new.take(m)) == src.take(c) + concat(old.take(m)).skip(c)
        }),
    decreases m,
{
    if m == 0 {
        assert(old.take(0) =~= Seq::<Vec<u8>>::empty());
        assert(new.take(0) =~= Seq::<Vec<u8>>::empty());
    } else {
        lemma_scatter_concat(src, old, new, m - 1);
        lemma_concat_take(old, m - 1);
        lemma_concat_take(new, m - 1);
        let n = src.len() as int;
        let prev = concat(old.take(m - 1));
        let a = prev.len() as int;
        let piece = old[m - 1]@;
        let b = a + piece.len();
        let ca = min_int(a, n);
        let np = new[m - 1]@;
        assert(np == crate::address::copied_into(src.subrange(ca, n), piece));
        if n >= b {
            assert(np =~= src.subrange(a, b));
            assert(concat(new.take(m)) =~= src.take(b) + (prev + piece).skip(b));
        } else if n >= a {
            assert(np =~= src.subrange(a, n) + piece.skip(n - a));
            assert(concat(new.take(m)) =~= src.take(n) + (prev + piece).skip(n));
        } else {
            assert(np =~= piece);
            assert(concat(new.take(m)) =~= src.take(n) + (prev + piece).skip(n));
        }
    }
}

impl RingBuf {
    /// Writes the pieces of `bufs` as one: as much of their concatenation as
    /// there is room for.
    pub fn write_to_vector(&mut self, bufs: &Vec<Vec<u8>>) -> (r: Result<usize, Errno>)
        requires
            old(self).wf(),
        ensures
            final(self).wf(),
            old(self).write_step(*final(self), concat(bufs@), r),
    {
        let data = flatten(bufs);
        self.write_to_buffer(data.as_slice())
    }

    /// Reads into the pieces of `bufs` as into one buffer: the bytes fill
    /// their concatenation from its head.
    pub fn read_from_vector(&mut self, bufs: &mut Vec<Vec<u8>>) -> (r: Result<usize, Errno>)
        requires
            old(self).wf(),
        ensures
            final(self).wf(),
            final(self).capacity == old(self).capacity,
            final(self).reader_open == old(self).reader_open,
            final(self).writer_open == old(self).writer_open,
            r == old(self).read_outcome(concat(old(bufs)@).len() as int),
            r matches Ok(k) ==> final(self).data@ == old(self).data@.skip(k as int) && concat(final(bufs)@)
                == old(self).data@.take(k as int) + concat(old(bufs)@).skip(k as int),
            r is Err ==> final(self).data@ == old(self).data@ && final(bufs)@ == old(bufs)@,
            final(bufs)@.len() == old(bufs)@.len(),
    {
        let avail = self.data.len();
        // The number of bytes to move: the room in the pieces, up to `avail`.
        let mut room: usize = 0;
        let mut nonempty = false;
        let mut i: usize = 0;
        while i < bufs.len()
            invariant
                i <= bufs@.len(),
                bufs@ == old(bufs)@,
                avail == old(self).data@.len(),
                room == min_int(concat(bufs@.take(i as int)).len() as int, avail as int),
                nonempty == (concat(bufs@.take(i as int)).len() > 0),
            decreases bufs@.len() - i,
        {
            proof {
                lemma_concat_take(bufs@, i as int);
            }
            let len = bufs[i].len();
            room = if len >= avail - room {
                avail
            } else {
                room + len
            };
            nonempty = nonempty || len > 0;
            i = i + 1;
        }
        proof {
            assert(bufs@.take(i as int) =~= bufs@);
        }
        if room == 0 {
            if !nonempty {
                proof {
                    assert(concat(bufs@).len() == 0);
                    assert(old(self).data@.skip(0) =~= old(self).data@);
                    assert(concat(bufs@).skip(0) =~= concat(bufs@));
                }
                return Ok(0);
            }
            if !self.writer_open {
                proof {
                    assert(old(self).data@.skip(0) =~= old(self).data@);
                    assert(concat(bufs@).skip(0) =~= concat(bufs@));
                }
                return Ok(0);
            }
            return Err(Errno::EAGAIN);
        }
        let mut tmp: Vec<u8> = vec![0u8; room];
        let r = self.read_from_buffer(tmp.as_mut_slice());
        let k = match r {
            Ok(k) => k,
            Err(e) => return Err(e),
        };
        let src = tmp.as_slice();
        let ghost old_bufs = bufs@;
        let mut off: usize = 0;
        let mut j: usize = 0;
        while j < bufs.len()
            invariant
                j <= bufs@.len(),
                bufs@.len() == old_bufs.len(),
                src@.len() == k,
                k <= concat(old_bufs).len(),
                off == min_int(concat(old_bufs.take(j as int)).len() as int, k as int),
                forall|x: int| j <= x < old_bufs.len() ==> bufs@[x] == old_bufs[x],
                forall|x: int|
                    0 <= x < j ==> {
                        let a = min_int(concat(old_bufs.take(x)).len() as int, k as int);
                        (#[trigger] bufs@[x])@ == crate::address::copied_into(src@.subrange(a, k as int), old_bufs[x]@)
                    },
            decreases bufs@.len() - j,
        {
            proof {
                lemma_concat_take(old_bufs, j as int);
            }
            let rest = &src[off..k];
            let mut piece = bufs[j].clone();
            let ghost before = bufs@;
            crate::address::copy_into(rest, piece.as_mut_slice());
            let n = piece.len();
            bufs[j] = piece;
            off = if n >= k - off {
                k
            } else {
                off + n
            };
            j = j + 1;
        }
        proof {
            assert(scattered(src@, old_bufs, bufs@));
            lemma_scatter_concat(src@, old_bufs, bufs@, old_bufs.len() as int);
            assert(old_bufs.take(old_bufs.len() as int) =~= old_bufs);
            assert(bufs@.take(bufs@.len() as int) =~= bufs@);
        }
        Ok(k)
    }
}

} // verus!
