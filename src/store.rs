use vstd::prelude::*;
use crate::arith::{lemma_mod_realign, lemma_mod_succ, lemma_mod_unique};
use vstd::arithmetic::div_mod::{lemma_add_mod_noop, lemma_small_mod};

verus! {

/// The cells of a ring of `cells.len()` slots after `data` has been written
/// into it one sample after another, starting at slot `start`.
///
/// Slot `j` holds the sample that was written `back` steps before the last
/// one, where `back` is the distance from `j` back to the last written slot;
/// if fewer samples than that were written, the slot keeps its old value.
pub open spec fn write_cells<T>(cells: Seq<T>, start: int, data: Seq<T>) -> Seq<T> {
    Seq::new(
        cells.len(),
        |j: int|
            {
                let back = (start + data.len() - 1 - j) % (cells.len() as int);
                if back < data.len() {
                    data[data.len() - 1 - back]
                } else {
                    cells[j]
                }
            },
    )
}

/// Valid length of a ring of capacity `cap` holding `recorded` valid samples,
/// after `n` samples were written starting at slot `start`: it covers all that
/// was written and saturates at the capacity.
pub open spec fn grown_len(recorded: int, start: int, n: int, cap: int) -> int {
    let reach = if recorded >= start + n {
        recorded
    } else {
        start + n
    };
    if reach <= cap {
        reach
    } else {
        cap
    }
}

/// `n` samples read from `cells` starting at slot `start`, wrapping modulo the
/// valid length `len`; silence throughout when nothing is valid.
pub open spec fn read_cells<T>(cells: Seq<T>, start: int, len: int, n: int, silence: T) -> Seq<T> {
    Seq::new(n as nat, |i: int| if len == 0 { silence } else { cells[(start + i) % len] })
}

/// Number of frames in `seconds` seconds at `rate` frames per second, or
/// `None` where that count does not fit in a `usize`.
pub fn capacity_frames(rate: usize, seconds: usize) -> (r: Option<usize>)
    ensures
        r == if rate * seconds <= usize::MAX {
            Some((rate * seconds) as usize)
        } else {
            None::<usize>
        },
{
    rate.checked_mul(seconds)
}

/// Fixed-capacity circular store of samples.
///
/// Writes wrap at the physical capacity; reads wrap at the recorded length, so
/// playback loops over exactly what has been captured so far.
pub struct Store<T> {
    buf: Vec<T>,
    write_ptr: usize,
    read_ptr: usize,
    recorded_frames: usize,
    silence: T,
}

impl<T: Copy> Store<T> {
    /// Contents of every slot, valid or not.
    pub closed spec fn cells(&self) -> Seq<T> {
        self.buf@
    }

    /// Number of slots.
    pub open spec fn capacity(&self) -> nat {
        self.cells().len()
    }

    /// Slot that the next write starts at.
    pub closed spec fn write_pos(&self) -> int {
        self.write_ptr as int
    }

    /// Position, modulo the recorded length, that the next read starts at.
    pub closed spec fn read_pos(&self) -> int {
        self.read_ptr as int
    }

    /// Number of slots, counted from slot 0, that hold recorded audio.
    pub closed spec fn recorded_len(&self) -> int {
        self.recorded_frames as int
    }

    /// Value that a read returns while nothing is recorded.
    pub closed spec fn silence_value(&self) -> T {
        self.silence
    }

    /// The write position lies within the slots, the recorded length within
    /// the capacity, and the read position within the recorded length.
    pub open spec fn wf(&self) -> bool {
        &&& 0 <= self.write_pos()
        &&& (self.write_pos() < self.capacity() || (self.capacity() == 0 && self.write_pos() == 0))
        &&& 0 <= self.recorded_len() <= self.capacity()
        &&& 0 <= self.read_pos()
        &&& (self.read_pos() < self.recorded_len() || (self.recorded_len() == 0
            && self.read_pos() == 0))
    }

    /// An empty store of `max_frames` slots, each holding `silence`.
    pub fn new(max_frames: usize, silence: T) -> (s: Self)
        ensures
            s.wf(),
            s.capacity() == max_frames,
            s.cells() == Seq::new(max_frames as nat, |j: int| silence),
            s.write_pos() == 0,
            s.read_pos() == 0,
            s.recorded_len() == 0,
            s.silence_value() == silence,
    {
        let mut buf: Vec<T> = Vec::new();
        let mut i: usize = 0;
        while i < max_frames
            invariant
                i <= max_frames,
                buf@ == Seq::new(i as nat, |j: int| silence),
            decreases max_frames - i,
        {
            buf.push(silence);
            i += 1;
            assert(buf@ =~= Seq::new(i as nat, |j: int| silence));
        }
        Store { buf, write_ptr: 0, read_ptr: 0, recorded_frames: 0, silence }
    }

    /// Number of slots.
    pub fn max_frames(&self) -> (r: usize)
        ensures
            r == self.capacity(),
    {
        self.buf.len()
    }

    /// Number of slots that hold recorded audio.
    pub fn recorded_frames(&self) -> (r: usize)
        ensures
            r == self.recorded_len(),
    {
        self.recorded_frames
    }

    /// Copies `data` into the ring from the write position on, wrapping at the
    /// capacity, and grows the recorded length to cover it. A store without
    /// slots records nothing.
    pub fn write(&mut self, data: &[T])
        requires
            old(self).wf(),
        ensures
            final(self).wf(),
            final(self).capacity() == old(self).capacity(),
            final(self).read_pos() == old(self).read_pos(),
            final(self).silence_value() == old(self).silence_value(),
            old(self).capacity() == 0 ==> final(self).cells() == old(self).cells()
                && final(self).write_pos() == old(self).write_pos()
                && final(self).recorded_len() == old(self).recorded_len(),
            old(self).capacity() > 0 ==> final(self).cells() == write_cells(
                old(self).cells(),
                old(self).write_pos(),
                data@,
            ) && final(self).write_pos() == (old(self).write_pos() + data@.len()) % (old(
                self,
            ).capacity() as int) && final(self).recorded_len() == grown_len(
                old(self).recorded_len(),
                old(self).write_pos(),
                data@.len() as int,
                old(self).capacity() as int,
            ),
    {
        let cap = self.buf.len();
        if cap == 0 {
            return;
        }
        let n = data.len();
        let ghost cells0 = self.buf@;
        let ghost start = self.write_ptr as int;
        let mut p = self.write_ptr;
        let mut i: usize = 0;
        proof {
            lemma_small_mod(start as nat, cap as nat);
            assert(write_cells(cells0, start, data@.subrange(0, 0)) =~= cells0) by {
                assert forall|j: int| 0 <= j < cap implies #[trigger] write_cells(
                    cells0,
                    start,
                    data@.subrange(0, 0),
                )[j] == cells0[j] by {
                    lemma_mod_succ(start - 1 - j, cap as int);
                }
            }
        }
        while i < n
            invariant
                cap == self.buf@.len(),
                cap > 0,
                n == data@.len(),
                i <= n,
                0 <= start < cap,
                p < cap,
                p as int == (start + i) % (cap as int),
                self.buf@ == write_cells(cells0, start, data@.subrange(0, i as int)),
                self.write_ptr as int == start,
                self.read_ptr == old(self).read_ptr,
                self.recorded_frames == old(self).recorded_frames,
                self.silence == old(self).silence,
            decreases n - i,
        {
            proof {
                lemma_write_step(cells0, start, data@, i as int);
                lemma_mod_succ(start + i, cap as int);
            }
            self.buf.set(p, data[i]);
            p = if p + 1 == cap {
                0
            } else {
                p + 1
            };
            i += 1;
        }
        assert(data@.subrange(0, n as int) =~= data@);
        if n >= cap - self.write_ptr {
            self.recorded_frames = cap;
        } else if self.write_ptr + n > self.recorded_frames {
            self.recorded_frames = self.write_ptr + n;
        }
        self.write_ptr = p;
    }

    /// Reads `n` samples from the read position on, wrapping modulo the recorded
    /// length, and advances the read position; silence while nothing is recorded.
    pub fn read(&mut self, n: usize) -> (out: Vec<T>)
        requires
            old(self).wf(),
        ensures
            final(self).wf(),
            final(self).cells() == old(self).cells(),
            final(self).write_pos() == old(self).write_pos(),
            final(self).recorded_len() == old(self).recorded_len(),
            final(self).silence_value() == old(self).silence_value(),
            out@ == read_cells(
                old(self).cells(),
                old(self).read_pos(),
                old(self).recorded_len(),
                n as int,
                old(self).silence_value(),
            ),
            final(self).read_pos() == if old(self).recorded_len() == 0 {
                0
            } else {
                (old(self).read_pos() + n) % old(self).recorded_len()
            },
    {
        let len = self.recorded_frames;
        let ghost start = self.read_ptr as int;
        let mut out: Vec<T> = Vec::new();
        let mut p = self.read_ptr;
        let mut i: usize = 0;
        proof {
            if len > 0 {
                lemma_small_mod(start as nat, len as nat);
            }
        }
        while i < n
            invariant
                self.wf(),
                len == self.recorded_frames,
                i <= n,
                self.read_ptr as int == start,
                len == 0 ==> p == 0,
                len > 0 ==> p < len && p as int == (start + i) % (len as int),
                out@ == read_cells(self.buf@, start, len as int, i as int, self.silence),
            decreases n - i,
        {
            if len == 0 {
                out.push(self.silence);
            } else {
                proof {
                    lemma_mod_succ(start + i, len as int);
                }
                out.push(self.buf[p]);
                p = if p + 1 == len {
                    0
                } else {
                    p + 1
                };
            }
            i += 1;
            assert(out@ =~= read_cells(self.buf@, start, len as int, i as int, self.silence));
        }
        self.read_ptr = p;
        out
    }

    /// Copy of the slots that hold recorded audio.
    pub fn get_recorded(&self) -> (out: Vec<T>)
        requires
            self.wf(),
        ensures
            out@ == self.cells().subrange(0, self.recorded_len()),
    {
        let mut out: Vec<T> = Vec::new();
        let mut i: usize = 0;
        while i < self.recorded_frames
            invariant
                self.wf(),
                i <= self.recorded_frames,
                out@ == self.buf@.subrange(0, i as int),
            decreases self.recorded_frames - i,
        {
            out.push(self.buf[i]);
            i += 1;
            assert(out@ =~= self.buf@.subrange(0, i as int));
        }
        out
    }

    /// Places `data` at the start of the store as its recorded excerpt, so that
    /// playback starts from it at once and later captures follow it. Samples
    /// beyond the capacity are dropped.
    pub fn preload(&mut self, data: &[T])
        requires
            old(self).wf(),
        ensures
            final(self).wf(),
            final(self).capacity() == old(self).capacity(),
            final(self).silence_value() == old(self).silence_value(),
            final(self).recorded_len() == if data@.len() <= old(self).capacity() {
                data@.len() as int
            } else {
                old(self).capacity() as int
            },
            final(self).cells() == Seq::new(
                old(self).capacity(),
                |j: int| if j < data@.len() { data@[j] } else { old(self).cells()[j] },
            ),
            final(self).read_pos() == 0,
            final(self).write_pos() == if final(self).recorded_len() == old(self).capacity() {
                0
            } else {
                final(self).recorded_len()
            },
    {
        let cap = self.buf.len();
        let count = if data.len() <= cap {
            data.len()
        } else {
            cap
        };
        let ghost cells0 = self.buf@;
        let mut i: usize = 0;
        while i < count
            invariant
                cap == self.buf@.len(),
                count <= cap,
                count <= data@.len(),
                i <= count,
                self.silence == old(self).silence,
                self.buf@ == Seq::new(
                    cap as nat,
                    |j: int| if j < i { data@[j] } else { cells0[j] },
                ),
            decreases count - i,
        {
            self.buf.set(i, data[i]);
            i += 1;
            assert(self.buf@ =~= Seq::new(
                cap as nat,
                |j: int| if j < i { data@[j] } else { cells0[j] },
            ));
        }
        assert(self.buf@ =~= Seq::new(
            cap as nat,
            |j: int| if j < data@.len() { data@[j] } else { cells0[j] },
        ));
        self.recorded_frames = count;
        self.read_ptr = 0;
        self.write_ptr = if count == cap {
            0
        } else {
            count
        };
    }

    /// Forgets the recorded excerpt: positions and recorded length return to
    /// zero, and the slots keep their stale contents, which no read reaches.
    pub fn reset(&mut self)
        requires
            old(self).wf(),
        ensures
            final(self).wf(),
            final(self).cells() == old(self).cells(),
            final(self).silence_value() == old(self).silence_value(),
            final(self).write_pos() == 0,
            final(self).read_pos() == 0,
            final(self).recorded_len() == 0,
    {
        self.write_ptr = 0;
        self.read_ptr = 0;
        self.recorded_frames = 0;
    }

    /// Gives the store `max_frames` slots. A store whose capacity changes starts
    /// over empty: the excerpt recorded so far is discarded.
    pub fn resize(&mut self, max_frames: usize)
        requires
            old(self).wf(),
        ensures
            final(self).wf(),
            final(self).silence_value() == old(self).silence_value(),
            final(self).capacity() == max_frames,
            max_frames == old(self).capacity() ==> *final(self) == *old(self),
            max_frames != old(self).capacity() ==> {
                &&& final(self).cells() == Seq::new(
                    max_frames as nat,
                    |j: int| old(self).silence_value(),
                )
                &&& final(self).write_pos() == 0
                &&& final(self).read_pos() == 0
                &&& final(self).recorded_len() == 0
            },
    {
        if max_frames != self.buf.len() {
            *self = Store::new(max_frames, self.silence);
        }
    }
}

/// Writing `k` samples into an empty store of at least `k` slots and then
/// reading `k` samples gives back exactly what was written, in order.
pub proof fn lemma_round_trip<T>(cells: Seq<T>, data: Seq<T>, silence: T)
    requires
        data.len() <= cells.len(),
    ensures
        read_cells(
            write_cells(cells, 0, data),
            0,
            grown_len(0, 0, data.len() as int, cells.len() as int),
            data.len() as int,
            silence,
        ) == data,
{
    let n = data.len() as int;
    let m = cells.len() as int;
    let after = write_cells(cells, 0, data);
    assert forall|i: int| 0 <= i < n implies #[trigger] read_cells(
        after,
        0,
        n,
        n,
        silence,
    )[i] == data[i] by {
        lemma_small_mod(i as nat, n as nat);
        lemma_small_mod((n - 1 - i) as nat, m as nat);
    }
    assert(read_cells(after, 0, n, n, silence) =~= data);
}

/// A write that runs past the physical end of the store continues at its
/// start, and reading from where the write began returns the samples in the
/// order they were written, not in the order of the slots.
pub proof fn lemma_wrap_in_order<T>(
    cells: Seq<T>,
    recorded: int,
    start: int,
    data: Seq<T>,
    silence: T,
)
    requires
        0 <= recorded <= cells.len(),
        0 <= start < cells.len(),
        data.len() <= cells.len(),
        start + data.len() > cells.len(),
    ensures
        grown_len(recorded, start, data.len() as int, cells.len() as int) == cells.len(),
        read_cells(
            write_cells(cells, start, data),
            start,
            grown_len(recorded, start, data.len() as int, cells.len() as int),
            data.len() as int,
            silence,
        ) == data,
{
    let n = data.len() as int;
    let m = cells.len() as int;
    let after = write_cells(cells, start, data);
    assert forall|i: int| 0 <= i < n implies #[trigger] read_cells(
        after,
        start,
        m,
        n,
        silence,
    )[i] == data[i] by {
        lemma_mod_succ(start + i, m);
        lemma_mod_realign(start + i, n - 1 - i, m);
        assert(start + n - 1 - (start + i) % m == (start + i) - (start + i) % m + (n - 1 - i));
    }
    assert(read_cells(after, start, m, n, silence) =~= data);
}

/// Once fewer samples than the capacity have been recorded into an empty
/// store, playback loops over the recorded span alone, whatever the capacity.
pub proof fn lemma_loops_over_recorded<T>(cells: Seq<T>, data: Seq<T>, n: int, silence: T)
    requires
        0 < data.len() < cells.len(),
        n >= 0,
    ensures
        read_cells(
            write_cells(cells, 0, data),
            0,
            grown_len(0, 0, data.len() as int, cells.len() as int),
            n,
            silence,
        ) == Seq::new(n as nat, |i: int| data[i % (data.len() as int)]),
{
    let k = data.len() as int;
    let m = cells.len() as int;
    let after = write_cells(cells, 0, data);
    assert forall|i: int| 0 <= i < n implies #[trigger] read_cells(after, 0, k, n, silence)[i]
        == data[i % k] by {
        lemma_mod_succ(i, k);
        lemma_small_mod((k - 1 - i % k) as nat, m as nat);
    }
    assert(read_cells(after, 0, k, n, silence) =~= Seq::new(
        n as nat,
        |i: int| data[i % k],
    ));
}

/// Writing one more sample changes exactly the slot it lands on.
proof fn lemma_write_step<T>(cells: Seq<T>, start: int, data: Seq<T>, i: int)
    requires
        cells.len() > 0,
        0 <= start < cells.len(),
        0 <= i < data.len(),
    ensures
        write_cells(cells, start, data.subrange(0, i + 1)) == write_cells(
            cells,
            start,
            data.subrange(0, i),
        ).update((start + i) % (cells.len() as int), data[i]),
{
    let m = cells.len() as int;
    let p = (start + i) % m;
    let a = data.subrange(0, i);
    let b = data.subrange(0, i + 1);
    lemma_mod_succ(start + i, m);
    assert forall|j: int| 0 <= j < m implies #[trigger] write_cells(cells, start, b)[j]
        == write_cells(cells, start, a).update(p, data[i])[j] by {
        lemma_mod_succ(start + i - 1 - j, m);
        assert(start + i - 1 - j + 1 == start + b.len() - 1 - j);
        if j == p {
            lemma_mod_realign(start + i, 0, m);
        } else {
            if (start + i - j) % m == 0 {
                lemma_mod_unique(start + i, j, m);
            }
        }
    }
    assert(write_cells(cells, start, b) =~= write_cells(cells, start, a).update(p, data[i]));
}

/// Reading `a + b` samples at once gives the same samples as reading `a` and
/// then `b` from where the first read left the read position.
pub proof fn lemma_read_splits<T>(cells: Seq<T>, start: int, len: int, a: int, b: int, silence: T)
    requires
        0 <= start,
        0 <= len,
        0 <= a,
        0 <= b,
    ensures
        read_cells(cells, start, len, a + b, silence) == read_cells(cells, start, len, a, silence)
            + read_cells(
            cells,
            if len == 0 {
                0
            } else {
                (start + a) % len
            },
            len,
            b,
            silence,
        ),
{
    let whole = read_cells(cells, start, len, a + b, silence);
    let next = if len == 0 {
        0
    } else {
        (start + a) % len
    };
    let parts = read_cells(cells, start, len, a, silence) + read_cells(cells, next, len, b, silence);
    assert forall|i: int| a <= i < a + b implies #[trigger] whole[i] == parts[i] by {
        if len > 0 {
            lemma_add_mod_noop(start + a, i - a, len);
            lemma_add_mod_noop((start + a) % len, i - a, len);
            lemma_mod_succ(start + a, len);
            lemma_small_mod(((start + a) % len) as nat, len as nat);
        }
    }
    assert(whole =~= parts);
}

} // verus!
