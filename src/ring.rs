//! A fixed-capacity ring of the most recently written values.

use vstd::prelude::*;

verus! {

/// The last `n` elements of `s` (all of `s` when it is shorter).
pub open spec fn last_n<T>(s: Seq<T>, n: nat) -> Seq<T> {
    if s.len() <= n {
        s
    } else {
        s.subrange(s.len() - n, s.len() as int)
    }
}

/// Contents of a ring stored in `buffer` whose oldest element sits at `cursor`.
pub open spec fn ring_contents<T>(buffer: Seq<T>, cursor: int) -> Seq<T> {
    buffer.subrange(cursor, buffer.len() as int) + buffer.subrange(0, cursor)
}

proof fn lemma_mod_succ(a: int, n: int)
    requires
        n > 0,
        a >= 0,
    ensures
        (a + 1) % n == if a % n + 1 == n { 0 } else { a % n + 1 },
{
    let q = a / n;
    let r = a % n;
    vstd::arithmetic::div_mod::lemma_fundamental_div_mod(a, n);
    if r + 1 < n {
        vstd::arithmetic::div_mod::lemma_fundamental_div_mod_converse(a + 1, n, q, r + 1);
    } else {
        assert(a + 1 == (q + 1) * n + 0) by (nonlinear_arith)
            requires
                a == n * q + r,
                r + 1 == n,
        ;
        vstd::arithmetic::div_mod::lemma_fundamental_div_mod_converse(a + 1, n, q + 1, 0);
    }
}

/// Skipping what the window would drop anyway does not change the result.
proof fn lemma_last_n_skip<T>(s: Seq<T>, b: Seq<T>, first: int, n: nat)
    requires
        s.len() == n,
        n > 0,
        first == if b.len() > n { b.len() - n } else { 0 },
    ensures
        last_n(s + b, n) == last_n(s + b.subrange(first, b.len() as int), n),
        last_n(s + b.subrange(first, first), n) == s,
{
    assert(s + b.subrange(first, first) =~= s);
    let full = s + b;
    let cut = s + b.subrange(first, b.len() as int);
    assert(last_n(full, n) =~= last_n(cut, n));
}

/// Pushing onto a sequence at least `n` long slides its window of the last `n`.
proof fn lemma_last_n_push<T>(s: Seq<T>, x: T, n: nat)
    requires
        s.len() >= n,
        n > 0,
    ensures
        last_n(s.push(x), n) == last_n(s, n).subrange(1, n as int).push(x),
{
    assert(last_n(s.push(x), n) =~= last_n(s, n).subrange(1, n as int).push(x));
}

/// Overwriting the oldest slot and moving the cursor past it drops the oldest
/// value and appends the new one.
proof fn lemma_ring_push<T>(before: Seq<T>, old_buf: Seq<T>, after: Seq<T>, i: int, j: int, x: T)
    requires
        0 <= i < old_buf.len(),
        j == if i + 1 == old_buf.len() { 0 } else { i + 1 },
        before == ring_contents(old_buf, i),
        after == old_buf.update(i, x),
    ensures
        ring_contents(after, j) == before.subrange(1, before.len() as int).push(x),
{
    let n = after.len() as int;
    assert(before.len() == n);
    assert forall|k: int| 0 <= k < n implies #[trigger] ring_contents(after, j)[k]
        == before.subrange(1, n).push(x)[k] by {
        if k == n - 1 {
        } else {
            assert(before[k + 1] == old_buf[(i + k + 1) % n]) by {
                if i + k + 1 < n {
                    vstd::arithmetic::div_mod::lemma_small_mod((i + k + 1) as nat, n as nat);
                } else {
                    vstd::arithmetic::div_mod::lemma_mod_sub_multiples_vanish(i + k + 1, n);
                    vstd::arithmetic::div_mod::lemma_small_mod((i + k + 1 - n) as nat, n as nat);
                }
            }
        }
    }
    assert(ring_contents(after, j) =~= before.subrange(1, n).push(x));
}

/// A fixed-size ring buffer of capacity `N`. Writes are pushed onto the back;
/// the oldest values fall off the front.
pub struct RingBuffer<T, const N: usize> {
    buffer: Vec<T>,
    index: usize,
}

impl<T: Copy + Default, const N: usize> RingBuffer<T, N> {
    /// The storage and the write cursor are consistent with the capacity.
    pub open spec fn wf(&self) -> bool {
        &&& self.storage().len() == N
        &&& if N == 0 { self.cursor() == 0 } else { self.cursor() < N }
    }

    /// Position of the oldest value in the storage, which is also where the
    /// next write lands.
    pub closed spec fn cursor(&self) -> nat {
        self.index as nat
    }

    /// The raw storage, in memory order.
    pub closed spec fn storage(&self) -> Seq<T> {
        self.buffer@
    }

    /// The contents from oldest to newest.
    pub open spec fn view(&self) -> Seq<T> {
        ring_contents(self.storage(), self.cursor() as int)
    }

    /// Creates a ring of `N` default values, with the cursor at the start.
    pub fn new() -> (r: Self)
        ensures
            r.wf(),
            r.cursor() == 0,
            r.storage().len() == N,
            forall|i: int| 0 <= i < N ==> call_ensures(T::default, (), #[trigger] r.storage()[i]),
    {
        let mut buffer: Vec<T> = Vec::new();
        let mut k: usize = 0;
        while k < N
            invariant
                k <= N,
                buffer@.len() == k,
                forall|i: int| 0 <= i < k ==> call_ensures(T::default, (), #[trigger] buffer@[i]),
            decreases N - k,
        {
            buffer.push(T::default());
            k = k + 1;
        }
        RingBuffer { buffer, index: 0 }
    }

    /// Appends `buf`, overwriting the oldest values. Of an input longer than
    /// the capacity only the last `N` values are kept.
    pub fn write(&mut self, buf: &[T])
        requires
            old(self).wf(),
        ensures
            final(self).wf(),
            final(self)@ == last_n(old(self)@ + buf@, N as nat),
            N > 0 ==> final(self).cursor() == (old(self).cursor() + if buf@.len() > N {
                N as int
            } else {
                buf@.len() as int
            }) % (N as int),
            N == 0 ==> final(self).cursor() == 0,
    {
        let n = self.buffer.len();
        if buf.len() == 0 || n == 0 {
            proof {
                if n == 0 {
                    assert(last_n(old(self)@ + buf@, 0) =~= old(self)@);
                } else {
                    assert(old(self)@ + buf@ =~= old(self)@);
                    vstd::arithmetic::div_mod::lemma_small_mod(old(self).cursor(), N as nat);
                }
            }
            return;
        }
        let first: usize = if buf.len() > n {
            buf.len() - n
        } else {
            0
        };
        let mut pos: usize = first;
        proof {
            lemma_last_n_skip(old(self)@, buf@, first as int, N as nat);
            vstd::arithmetic::div_mod::lemma_small_mod(old(self).cursor(), N as nat);
        }
        while pos < buf.len()
            invariant
                n == N,
                N > 0,
                first <= pos <= buf@.len(),
                first == if buf@.len() > N { buf@.len() - N } else { 0 },
                self.wf(),
                self@ == last_n(old(self)@ + buf@.subrange(first as int, pos as int), N as nat),
                self.cursor() == (old(self).cursor() + (pos - first)) % (N as int),
            decreases buf@.len() - pos,
        {
            let ghost before = self@;
            let ghost prefix = old(self)@ + buf@.subrange(first as int, pos as int);
            let ghost old_buf = self.storage();
            let i = self.index;
            self.buffer[i] = buf[pos];
            self.index = if i + 1 == n {
                0
            } else {
                i + 1
            };
            proof {
                lemma_ring_push(before, old_buf, self.storage(), i as int, self.index as int, buf@[pos as int]);
                assert(old(self)@ + buf@.subrange(first as int, pos + 1) =~= prefix.push(buf@[pos as int]));
                lemma_last_n_push(prefix, buf@[pos as int], N as nat);
                assert((old(self).cursor() + (pos - first)) % (N as int) == i);
                assert((old(self).cursor() + (pos + 1 - first)) % (N as int) == self.index) by {
                    lemma_mod_succ(old(self).cursor() + (pos - first), N as int);
                }
            }
            pos = pos + 1;
        }
        proof {
            assert(buf@.subrange(first as int, buf@.len() as int) == buf@.subrange(first as int, pos as int));
        }
    }

    /// The contents as two slices: the older part, from the cursor to the end
    /// of the storage, and the newer part, from the start of the storage to
    /// the cursor.
    pub fn read(&self) -> (r: (&[T], &[T]))
        requires
            self.wf(),
        ensures
            r.0@ == self.storage().subrange(self.cursor() as int, N as int),
            r.1@ == self.storage().subrange(0, self.cursor() as int),
            r.0@ + r.1@ == self@,
            r.0@.len() + r.1@.len() == N,
    {
        let (newer, older) = self.buffer.as_slice().split_at(self.index);
        (older, newer)
    }
}

} // verus!
