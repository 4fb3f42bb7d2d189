//! Bounded, cursor-based byte access. These two types are the only code in
//! the crate that indexes a buffer; every encoder and decoder goes through them.
use vstd::prelude::*;
use vstd::slice::slice_subrange;

verus! {

/// `256^n`: the number of distinct values that `n` bytes can hold.
pub open spec fn byte_span(n: nat) -> nat
    decreases n,
{
    if n == 0 {
        1
    } else {
        256 * byte_span((n - 1) as nat)
    }
}

/// The `n`-byte little-endian encoding of `v` (bytes past the value are zero).
pub open spec fn le_bytes(v: nat, n: nat) -> Seq<u8>
    decreases n,
{
    if n == 0 {
        seq![]
    } else {
        seq![(v % 256) as u8] + le_bytes(v / 256, (n - 1) as nat)
    }
}

/// The unsigned value whose little-endian encoding is `b`.
pub open spec fn le_value(b: Seq<u8>) -> nat
    decreases b.len(),
{
    if b.len() == 0 {
        0
    } else {
        b[0] as nat + 256 * le_value(b.drop_first())
    }
}

/// A signed byte read back from its unsigned bits is the same byte.
pub proof fn lemma_i8_bits(x: i8)
    ensures
        (x as u8) as i8 == x,
{
    assert((x as u8) as i8 == x) by (bit_vector);
}

/// `buf` with the bytes of `s` laid over it from `pos` on.
pub open spec fn overwrite(buf: Seq<u8>, pos: int, s: Seq<u8>) -> Seq<u8> {
    buf.take(pos) + s + buf.skip(pos + s.len())
}

/// An `n`-byte encoding has `n` bytes.
pub proof fn lemma_le_bytes_len(v: nat, n: nat)
    ensures
        le_bytes(v, n).len() == n,
    decreases n,
{
    if n > 0 {
        lemma_le_bytes_len(v / 256, (n - 1) as nat);
    }
}

/// More bytes hold more values.
pub proof fn lemma_byte_span_monotonic(a: nat, b: nat)
    requires
        a <= b,
    ensures
        1 <= byte_span(a) <= byte_span(b),
    decreases b,
{
    if b > a {
        lemma_byte_span_monotonic(a, (b - 1) as nat);
    } else if a > 0 {
        lemma_byte_span_monotonic((a - 1) as nat, (a - 1) as nat);
    }
}

/// The value ranges of the integer widths.
pub proof fn lemma_byte_span_values()
    ensures
        byte_span(1) == 0x100,
        byte_span(2) == 0x1_0000,
        byte_span(4) == 0x1_0000_0000,
        byte_span(8) == 0x1_0000_0000_0000_0000,
        byte_span(16) == 0x1_0000_0000_0000_0000_0000_0000_0000_0000,
{
    reveal_with_fuel(byte_span, 17);
}

/// Decoding an encoding gives the value back, as long as it fits in the bytes.
pub proof fn lemma_le_value_of_bytes(v: nat, n: nat)
    requires
        v < byte_span(n),
    ensures
        le_value(le_bytes(v, n)) == v,
    decreases n,
{
    if n > 0 {
        let b = le_bytes(v, n);
        lemma_le_bytes_len(v, n);
        assert(b.drop_first() =~= le_bytes(v / 256, (n - 1) as nat));
        assert(v / 256 < byte_span((n - 1) as nat)) by (nonlinear_arith)
            requires
                v < 256 * byte_span((n - 1) as nat),
        ;
        lemma_le_value_of_bytes(v / 256, (n - 1) as nat);
    }
}

/// A little-endian value fits in its bytes.
pub proof fn lemma_le_value_bound(b: Seq<u8>)
    ensures
        le_value(b) < byte_span(b.len()),
    decreases b.len(),
{
    if b.len() > 0 {
        lemma_le_value_bound(b.drop_first());
        let t = le_value(b.drop_first());
        let s = byte_span((b.len() - 1) as nat);
        assert(b[0] as nat + 256 * t < 256 * s) by (nonlinear_arith)
            requires
                t < s,
                b[0] < 256,
        ;
    }
}

/// Little-endian encodings of `vals`, `w` bytes each, back to back.
pub open spec fn le_list(vals: Seq<nat>, w: nat) -> Seq<u8>
    decreases vals.len(),
{
    if vals.len() == 0 {
        seq![]
    } else {
        le_list(vals.drop_last(), w) + le_bytes(vals.last(), w)
    }
}

/// The values of the consecutive `w`-byte little-endian chunks of `b`.
pub open spec fn le_elems(b: Seq<u8>, w: nat) -> Seq<nat>
    decreases b.len(),
{
    if w == 0 || b.len() < w {
        seq![]
    } else {
        le_elems(b.take(b.len() - w), w).push(le_value(b.skip(b.len() - w)))
    }
}

/// Widening of each element to a natural number.
pub open spec fn nats_of_u16(s: Seq<u16>) -> Seq<nat> {
    s.map_values(|x: u16| x as nat)
}

/// Widening of each element to a natural number.
pub open spec fn nats_of_u32(s: Seq<u32>) -> Seq<nat> {
    s.map_values(|x: u32| x as nat)
}

/// Widening of each element to a natural number.
pub open spec fn nats_of_u128(s: Seq<u128>) -> Seq<nat> {
    s.map_values(|x: u128| x as nat)
}

/// A list encoding has `w` bytes per value.
pub proof fn lemma_le_list_len(vals: Seq<nat>, w: nat)
    ensures
        le_list(vals, w).len() == vals.len() * w,
    decreases vals.len(),
{
    if vals.len() > 0 {
        lemma_le_list_len(vals.drop_last(), w);
        lemma_le_bytes_len(vals.last(), w);
        assert((vals.len() - 1) * w + w == vals.len() * w) by (nonlinear_arith);
    }
}

/// Decoding the chunks of an encoded list gives the list back, as long as
/// every value fits in its chunk.
pub proof fn lemma_le_elems_of_list(vals: Seq<nat>, w: nat)
    requires
        w > 0,
        forall|i: int| 0 <= i < vals.len() ==> vals[i] < byte_span(w),
    ensures
        le_elems(le_list(vals, w), w) == vals,
    decreases vals.len(),
{
    if vals.len() == 0 {
        assert(le_elems(le_list(vals, w), w) =~= vals);
    } else {
        let b = le_list(vals, w);
        let front = le_list(vals.drop_last(), w);
        lemma_le_list_len(vals.drop_last(), w);
        lemma_le_bytes_len(vals.last(), w);
        assert(b.take(b.len() - w) =~= front);
        assert(b.skip(b.len() - w) =~= le_bytes(vals.last(), w));
        lemma_le_value_of_bytes(vals.last(), w);
        lemma_le_elems_of_list(vals.drop_last(), w);
        assert(le_elems(b, w) =~= vals);
    }
}

/// Laying `s1` and then `s2` right after it is laying `s1 + s2`.
pub proof fn lemma_overwrite_append(b: Seq<u8>, p: int, s1: Seq<u8>, s2: Seq<u8>)
    requires
        0 <= p,
        p + s1.len() + s2.len() <= b.len(),
    ensures
        overwrite(overwrite(b, p, s1), p + s1.len(), s2) == overwrite(b, p, s1 + s2),
{
    assert(overwrite(overwrite(b, p, s1), p + s1.len(), s2) =~= overwrite(b, p, s1 + s2));
}

/// The `n`-byte little-endian encoding of `v`.
fn le_encode(v: u128, n: usize) -> (r: Vec<u8>)
    ensures
        r@ == le_bytes(v as nat, n as nat),
{
    let mut out: Vec<u8> = Vec::new();
    let mut x: u128 = v;
    let mut i: usize = 0;
    while i < n
        invariant
            i <= n,
            out@ + le_bytes(x as nat, (n - i) as nat) == le_bytes(v as nat, n as nat),
        decreases n - i,
    {
        let ghost before = out@;
        let ghost k = (n - i) as nat;
        out.push((x % 256) as u8);
        assert(le_bytes(x as nat, k) == seq![(x % 256) as u8] + le_bytes((x / 256) as nat, (k
            - 1) as nat));
        assert(out@ + le_bytes((x / 256) as nat, (k - 1) as nat) =~= before + le_bytes(
            x as nat,
            k,
        ));
        x = x / 256;
        i = i + 1;
    }
    out
}

/// The value of at most sixteen little-endian bytes.
fn le_decode(b: &[u8]) -> (r: u128)
    requires
        b@.len() <= 16,
    ensures
        r == le_value(b@),
{
    let n = b.len();
    let mut i: usize = n;
    let mut acc: u128 = 0;
    proof {
        assert(b@.subrange(n as int, n as int) =~= Seq::<u8>::empty());
    }
    while i > 0
        invariant
            i <= n,
            n == b@.len(),
            n <= 16,
            acc == le_value(b@.subrange(i as int, n as int)),
        decreases i,
    {
        let ghost tail = b@.subrange(i as int, n as int);
        i = i - 1;
        let ghost cur = b@.subrange(i as int, n as int);
        proof {
            assert(cur.drop_first() =~= tail);
            lemma_le_value_bound(cur);
            lemma_byte_span_monotonic(cur.len(), 16);
            lemma_byte_span_values();
        }
        acc = b[i] as u128 + acc * 256;
    }
    proof {
        assert(b@.subrange(0, n as int) =~= b@);
    }
    acc
}

/// Failure of a bounded write.
#[derive(Debug, Clone, Copy, PartialEq, Eq, Structural)]
pub enum WriteError {
    /// The write would run past the end of the destination buffer.
    BufferOverflow,
}

/// What the cursor of a [`Writer`] sees: the whole buffer and the write position.
pub struct WriterView {
    pub buf: Seq<u8>,
    pub pos: nat,
}

/// Sequential writer over a buffer of fixed capacity (the buffer's length).
#[derive(Debug)]
pub struct Writer {
    buf: Vec<u8>,
    pos: usize,
}

impl View for Writer {
    type V = WriterView;

    closed spec fn view(&self) -> WriterView {
        WriterView { buf: self.buf@, pos: self.pos as nat }
    }
}

impl Writer {
    /// A writer at the start of `buf`; its capacity is `buf`'s length.
    pub fn new(buf: Vec<u8>) -> (w: Writer)
        ensures
            w@ == (WriterView { buf: buf@, pos: 0 }),
    {
        Writer { buf, pos: 0 }
    }

    /// Number of bytes written so far.
    pub fn pos(&self) -> (r: usize)
        ensures
            r == self@.pos,
    {
        self.pos
    }

    /// Size of the buffer.
    pub fn capacity(&self) -> (r: usize)
        ensures
            r == self@.buf.len(),
    {
        self.buf.len()
    }

    /// Gives the buffer back.
    pub fn into_inner(self) -> (r: Vec<u8>)
        ensures
            r@ == self@.buf,
    {
        self.buf
    }

    /// Appends `slice` at the write position. Fails, leaving the writer as it
    /// was, when the bytes would not fit.
    pub fn write_slice(&mut self, slice: &[u8]) -> (r: Result<(), WriteError>)
        ensures
            old(self)@.pos + slice@.len() <= old(self)@.buf.len() ==> r is Ok && final(self)@ == (
            WriterView {
                buf: overwrite(old(self)@.buf, old(self)@.pos as int, slice@),
                pos: old(self)@.pos + slice@.len(),
            }),
            old(self)@.pos + slice@.len() > old(self)@.buf.len() ==> r == Err::<(), WriteError>(
                WriteError::BufferOverflow,
            ) && final(self)@ == old(self)@,
    {
        let n = slice.len();
        if self.pos > self.buf.len() || n > self.buf.len() - self.pos {
            return Err(WriteError::BufferOverflow);
        }
        let start = self.pos;
        let end = start + n;
        let mut i: usize = 0;
        while i < n
            invariant
                i <= n,
                end == start + n,
                n == slice@.len(),
                start == old(self)@.pos,
                self.pos == start,
                start + n <= self.buf@.len(),
                self.buf@.len() == old(self)@.buf.len(),
                forall|k: int|
                    0 <= k < self.buf@.len() ==> self.buf@[k] == if start <= k < start + i {
                        slice@[k - start]
                    } else {
                        old(self)@.buf[k]
                    },
            decreases n - i,
        {
            self.buf.set(start + i, slice[i]);
            i = i + 1;
        }
        self.pos = start + n;
        proof {
            assert(self.buf@ =~= overwrite(old(self)@.buf, start as int, slice@));
        }
        Ok(())
    }

    /// Appends one byte.
    pub fn write_u8(&mut self, value: u8) -> (r: Result<(), WriteError>)
        ensures
            old(self)@.pos + 1 <= old(self)@.buf.len() ==> r is Ok && final(self)@ == (WriterView {
                buf: overwrite(old(self)@.buf, old(self)@.pos as int, seq![value]),
                pos: old(self)@.pos + 1,
            }),
            old(self)@.pos + 1 > old(self)@.buf.len() ==> r == Err::<(), WriteError>(
                WriteError::BufferOverflow,
            ) && final(self)@ == old(self)@,
    {
        let bytes = le_encode(value as u128, 1);
        proof {
            reveal_with_fuel(le_bytes, 2);
            assert(bytes@ =~= seq![value]);
        }
        self.write_slice(bytes.as_slice())
    }

    /// Appends a 16-bit value, least significant byte first.
    pub fn write_u16(&mut self, value: u16) -> (r: Result<(), WriteError>)
        ensures
            old(self)@.pos + 2 <= old(self)@.buf.len() ==> r is Ok && final(self)@ == (WriterView {
                buf: overwrite(old(self)@.buf, old(self)@.pos as int, le_bytes(value as nat, 2)),
                pos: old(self)@.pos + 2,
            }),
            old(self)@.pos + 2 > old(self)@.buf.len() ==> r == Err::<(), WriteError>(
                WriteError::BufferOverflow,
            ) && final(self)@ == old(self)@,
    {
        let bytes = le_encode(value as u128, 2);
        proof {
            lemma_le_bytes_len(value as nat, 2);
        }
        self.write_slice(bytes.as_slice())
    }

    /// Appends a 32-bit value, least significant byte first.
    pub fn write_u32(&mut self, value: u32) -> (r: Result<(), WriteError>)
        ensures
            old(self)@.pos + 4 <= old(self)@.buf.len() ==> r is Ok && final(self)@ == (WriterView {
                buf: overwrite(old(self)@.buf, old(self)@.pos as int, le_bytes(value as nat, 4)),
                pos: old(self)@.pos + 4,
            }),
            old(self)@.pos + 4 > old(self)@.buf.len() ==> r == Err::<(), WriteError>(
                WriteError::BufferOverflow,
            ) && final(self)@ == old(self)@,
    {
        let bytes = le_encode(value as u128, 4);
        proof {
            lemma_le_bytes_len(value as nat, 4);
        }
        self.write_slice(bytes.as_slice())
    }

    /// Appends a 64-bit value, least significant byte first.
    pub fn write_u64(&mut self, value: u64) -> (r: Result<(), WriteError>)
        ensures
            old(self)@.pos + 8 <= old(self)@.buf.len() ==> r is Ok && final(self)@ == (WriterView {
                buf: overwrite(old(self)@.buf, old(self)@.pos as int, le_bytes(value as nat, 8)),
                pos: old(self)@.pos + 8,
            }),
            old(self)@.pos + 8 > old(self)@.buf.len() ==> r == Err::<(), WriteError>(
                WriteError::BufferOverflow,
            ) && final(self)@ == old(self)@,
    {
        let bytes = le_encode(value as u128, 8);
        proof {
            lemma_le_bytes_len(value as nat, 8);
        }
        self.write_slice(bytes.as_slice())
    }

    /// Appends a 128-bit value, least significant byte first.
    pub fn write_u128(&mut self, value: u128) -> (r: Result<(), WriteError>)
        ensures
            old(self)@.pos + 16 <= old(self)@.buf.len() ==> r is Ok && final(self)@ == (
            WriterView {
                buf: overwrite(old(self)@.buf, old(self)@.pos as int, le_bytes(value as nat, 16)),
                pos: old(self)@.pos + 16,
            }),
            old(self)@.pos + 16 > old(self)@.buf.len() ==> r == Err::<(), WriteError>(
                WriteError::BufferOverflow,
            ) && final(self)@ == old(self)@,
    {
        let bytes = le_encode(value, 16);
        proof {
            lemma_le_bytes_len(value as nat, 16);
        }
        self.write_slice(bytes.as_slice())
    }

    /// Appends each value of `vals` as 2 little-endian bytes.
    pub fn write_u16_list(&mut self, vals: &[u16]) -> (r: Result<(), WriteError>)
        ensures
            old(self)@.pos + 2 * vals@.len() <= old(self)@.buf.len() ==> r is Ok && final(self)@
                == (WriterView {
                buf: overwrite(old(self)@.buf, old(self)@.pos as int, le_list(nats_of_u16(vals@), 2)),
                pos: old(self)@.pos + 2 * vals@.len(),
            }),
            old(self)@.pos + 2 * vals@.len() > old(self)@.buf.len() ==> r == Err::<(), WriteError>(
                WriteError::BufferOverflow,
            ) && final(self)@ == old(self)@,
    {
        let n = vals.len();
        let cap = self.buf.len();
        if self.pos > cap || n > (cap - self.pos) / 2 {
            return Err(WriteError::BufferOverflow);
        }
        let ghost b0 = self.buf@;
        let ghost start = self.pos as int;
        let ghost nats = nats_of_u16(vals@);
        let mut i: usize = 0;
        proof {
            assert(nats.take(0) =~= Seq::<nat>::empty());
            assert(overwrite(b0, start, seq![]) =~= b0);
        }
        while i < n
            invariant
                i <= n,
                n == vals@.len(),
                nats == nats_of_u16(vals@),
                0 <= start,
                start + 2 * n <= b0.len(),
                self@ == (WriterView {
                    buf: overwrite(b0, start, le_list(nats.take(i as int), 2)),
                    pos: (start + 2 * i) as nat,
                }),
            decreases n - i,
        {
            proof {
                lemma_le_list_len(nats.take(i as int), 2);
                lemma_le_bytes_len(vals@[i as int] as nat, 2);
                assert(nats.take(i + 1).drop_last() =~= nats.take(i as int));
                assert(nats.take(i + 1).last() == vals@[i as int] as nat);
                assert(nats.take(i + 1).last() == vals@[i as int] as nat);
                assert(nats.take(i + 1).last() == vals@[i as int] as nat);
                lemma_overwrite_append(
                    b0,
                    start,
                    le_list(nats.take(i as int), 2),
                    le_bytes(vals@[i as int] as nat, 2),
                );
            }
            let res = self.write_u16(vals[i]);
            i = i + 1;
        }
        proof {
            assert(nats.take(n as int) =~= nats);
        }
        Ok(())
    }

    /// Appends each value of `vals` as 4 little-endian bytes.
    pub fn write_u32_list(&mut self, vals: &[u32]) -> (r: Result<(), WriteError>)
        ensures
            old(self)@.pos + 4 * vals@.len() <= old(self)@.buf.len() ==> r is Ok && final(self)@
                == (WriterView {
                buf: overwrite(old(self)@.buf, old(self)@.pos as int, le_list(nats_of_u32(vals@), 4)),
                pos: old(self)@.pos + 4 * vals@.len(),
            }),
            old(self)@.pos + 4 * vals@.len() > old(self)@.buf.len() ==> r == Err::<(), WriteError>(
                WriteError::BufferOverflow,
            ) && final(self)@ == old(self)@,
    {
        let n = vals.len();
        let cap = self.buf.len();
        if self.pos > cap || n > (cap - self.pos) / 4 {
            return Err(WriteError::BufferOverflow);
        }
        let ghost b0 = self.buf@;
        let ghost start = self.pos as int;
        let ghost nats = nats_of_u32(vals@);
        let mut i: usize = 0;
        proof {
            assert(nats.take(0) =~= Seq::<nat>::empty());
            assert(overwrite(b0, start, seq![]) =~= b0);
        }
        while i < n
            invariant
                i <= n,
                n == vals@.len(),
                nats == nats_of_u32(vals@),
                0 <= start,
                start + 4 * n <= b0.len(),
                self@ == (WriterView {
                    buf: overwrite(b0, start, le_list(nats.take(i as int), 4)),
                    pos: (start + 4 * i) as nat,
                }),
            decreases n - i,
        {
            proof {
                lemma_le_list_len(nats.take(i as int), 4);
                lemma_le_bytes_len(vals@[i as int] as nat, 4);
                assert(nats.take(i + 1).drop_last() =~= nats.take(i as int));
                assert(nats.take(i + 1).last() == vals@[i as int] as nat);
                assert(nats.take(i + 1).last() == vals@[i as int] as nat);
                assert(nats.take(i + 1).last() == vals@[i as int] as nat);
                lemma_overwrite_append(
                    b0,
                    start,
                    le_list(nats.take(i as int), 4),
                    le_bytes(vals@[i as int] as nat, 4),
                );
            }
            let res = self.write_u32(vals[i]);
            i = i + 1;
        }
        proof {
            assert(nats.take(n as int) =~= nats);
        }
        Ok(())
    }

    /// Appends each value of `vals` as 16 little-endian bytes.
    pub fn write_u128_list(&mut self, vals: &[u128]) -> (r: Result<(), WriteError>)
        ensures
            old(self)@.pos + 16 * vals@.len() <= old(self)@.buf.len() ==> r is Ok && final(self)@
                == (WriterView {
                buf: overwrite(old(self)@.buf, old(self)@.pos as int, le_list(nats_of_u128(vals@), 16)),
                pos: old(self)@.pos + 16 * vals@.len(),
            }),
            old(self)@.pos + 16 * vals@.len() > old(self)@.buf.len() ==> r == Err::<(), WriteError>(
                WriteError::BufferOverflow,
            ) && final(self)@ == old(self)@,
    {
        let n = vals.len();
        let cap = self.buf.len();
        if self.pos > cap || n > (cap - self.pos) / 16 {
            return Err(WriteError::BufferOverflow);
        }
        let ghost b0 = self.buf@;
        let ghost start = self.pos as int;
        let ghost nats = nats_of_u128(vals@);
        let mut i: usize = 0;
        proof {
            assert(nats.take(0) =~= Seq::<nat>::empty());
            assert(overwrite(b0, start, seq![]) =~= b0);
        }
        while i < n
            invariant
                i <= n,
                n == vals@.len(),
                nats == nats_of_u128(vals@),
                0 <= start,
                start + 16 * n <= b0.len(),
                self@ == (WriterView {
                    buf: overwrite(b0, start, le_list(nats.take(i as int), 16)),
                    pos: (start + 16 * i) as nat,
                }),
            decreases n - i,
        {
            proof {
                lemma_le_list_len(nats.take(i as int), 16);
                lemma_le_bytes_len(vals@[i as int] as nat, 16);
                assert(nats.take(i + 1).drop_last() =~= nats.take(i as int));
                assert(nats.take(i + 1).last() == vals@[i as int] as nat);
                assert(nats.take(i + 1).last() == vals@[i as int] as nat);
                assert(nats.take(i + 1).last() == vals@[i as int] as nat);
                lemma_overwrite_append(
                    b0,
                    start,
                    le_list(nats.take(i as int), 16),
                    le_bytes(vals@[i as int] as nat, 16),
                );
            }
            let res = self.write_u128(vals[i]);
            i = i + 1;
        }
        proof {
            assert(nats.take(n as int) =~= nats);
        }
        Ok(())
    }
}

/// What the cursor of a [`Reader`] sees: the whole input and the read position.
pub struct ReaderView {
    pub input: Seq<u8>,
    pub pos: nat,
}

impl ReaderView {
    /// The bytes not read yet.
    pub open spec fn rest(self) -> Seq<u8> {
        self.input.subrange(self.pos as int, self.input.len() as int)
    }

    /// The cursor moved `n` bytes further.
    pub open spec fn advanced(self, n: nat) -> ReaderView {
        ReaderView { input: self.input, pos: self.pos + n }
    }
}

/// Moving the cursor drops the bytes passed from what is left.
pub proof fn lemma_advanced_rest(v: ReaderView, n: nat)
    requires
        v.pos + n <= v.input.len(),
    ensures
        v.advanced(n).rest() == v.rest().skip(n as int),
{
    assert(v.advanced(n).rest() =~= v.rest().skip(n as int));
}

/// Sequential reader over a borrowed input.
#[derive(Debug)]
pub struct Reader<'p> {
    buf: &'p [u8],
    pos: usize,
}

impl<'p> View for Reader<'p> {
    type V = ReaderView;

    closed spec fn view(&self) -> ReaderView {
        ReaderView { input: self.buf@, pos: self.pos as nat }
    }
}

impl<'p> Reader<'p> {
    /// The read position never passes the end of the input.
    #[verifier::type_invariant]
    pub open spec fn inv(&self) -> bool {
        self@.pos <= self@.input.len()
    }

    /// A reader at the start of `buf`.
    pub fn new(buf: &'p [u8]) -> (r: Reader<'p>)
        ensures
            r@ == (ReaderView { input: buf@, pos: 0 }),
            r@.rest() == buf@,
    {
        proof {
            assert(buf@.subrange(0, buf@.len() as int) =~= buf@);
        }
        Reader { buf, pos: 0 }
    }

    /// Number of bytes read so far.
    pub fn pos(&self) -> (r: usize)
        ensures
            r == self@.pos,
    {
        self.pos
    }

    /// Number of bytes not read yet.
    pub fn remaining(&self) -> (r: usize)
        ensures
            r == self@.rest().len(),
            r == self@.input.len() - self@.pos,
    {
        proof {
            use_type_invariant(self);
        }
        self.buf.len() - self.pos
    }

    /// Moves the cursor to the end of the input.
    pub fn skip_to_end(&mut self)
        ensures
            final(self)@ == (ReaderView { input: old(self)@.input, pos: old(self)@.input.len() }),
            final(self)@.rest() == Seq::<u8>::empty(),
    {
        self.pos = self.buf.len();
        proof {
            assert(self@.rest() =~= Seq::<u8>::empty());
        }
    }

    /// Moves the cursor to `pos`; fails, leaving it where it was, when `pos`
    /// lies past the end of the input.
    pub fn seek(&mut self, pos: usize) -> (r: Option<()>)
        ensures
            pos <= old(self)@.input.len() ==> r is Some && final(self)@ == (ReaderView {
                input: old(self)@.input,
                pos: pos as nat,
            }),
            pos > old(self)@.input.len() ==> r is None && final(self)@ == old(self)@,
    {
        if pos > self.buf.len() {
            return None;
        }
        self.pos = pos;
        Some(())
    }

    /// The next `len` bytes, or nothing (and no move) when fewer remain.
    pub fn read_slice(&mut self, len: usize) -> (r: Option<&'p [u8]>)
        ensures
            len <= old(self)@.rest().len() ==> (r matches Some(s) && s@ == old(self)@.rest().take(
                len as int,
            )) && final(self)@ == old(self)@.advanced(len as nat),
            len > old(self)@.rest().len() ==> r is None && final(self)@ == old(self)@,
    {
        proof {
            use_type_invariant(&*self);
        }
        let total = self.buf.len();
        if total - self.pos < len {
            return None;
        }
        let slice = slice_subrange(self.buf, self.pos, self.pos + len);
        self.pos = self.pos + len;
        proof {
            assert(slice@ =~= old(self)@.rest().take(len as int));
        }
        Some(slice)
    }

    /// The next `n <= 16` bytes as a little-endian value.
    fn read_le(&mut self, n: usize) -> (r: Option<u128>)
        requires
            n <= 16,
        ensures
            n <= old(self)@.rest().len() ==> r == Some(le_value(old(self)@.rest().take(n as int)) as u128)
                && final(self)@ == old(self)@.advanced(n as nat),
            n > old(self)@.rest().len() ==> r is None && final(self)@ == old(self)@,
    {
        match self.read_slice(n) {
            Some(bytes) => Some(le_decode(bytes)),
            None => None,
        }
    }

    /// The next byte.
    pub fn read_u8(&mut self) -> (r: Option<u8>)
        ensures
            1 <= old(self)@.rest().len() ==> r == Some(old(self)@.rest()[0]) && final(self)@ == old(
                self,
            )@.advanced(1),
            1 > old(self)@.rest().len() ==> r is None && final(self)@ == old(self)@,
    {
        proof {
            reveal_with_fuel(le_value, 2);
        }
        match self.read_le(1) {
            Some(v) => Some(v as u8),
            None => None,
        }
    }

    /// The next two bytes as a little-endian value.
    pub fn read_u16(&mut self) -> (r: Option<u16>)
        ensures
            2 <= old(self)@.rest().len() ==> r == Some(
                le_value(old(self)@.rest().take(2)) as u16,
            ) && final(self)@ == old(self)@.advanced(2),
            2 > old(self)@.rest().len() ==> r is None && final(self)@ == old(self)@,
    {
        match self.read_le(2) {
            Some(v) => {
                proof {
                    lemma_le_value_bound(old(self)@.rest().take(2));
                    lemma_byte_span_values();
                }
                Some(v as u16)
            },
            None => None,
        }
    }

    /// The next four bytes as a little-endian value.
    pub fn read_u32(&mut self) -> (r: Option<u32>)
        ensures
            4 <= old(self)@.rest().len() ==> r == Some(
                le_value(old(self)@.rest().take(4)) as u32,
            ) && final(self)@ == old(self)@.advanced(4),
            4 > old(self)@.rest().len() ==> r is None && final(self)@ == old(self)@,
    {
        match self.read_le(4) {
            Some(v) => {
                proof {
                    lemma_le_value_bound(old(self)@.rest().take(4));
                    lemma_byte_span_values();
                }
                Some(v as u32)
            },
            None => None,
        }
    }

    /// The next eight bytes as a little-endian value.
    pub fn read_u64(&mut self) -> (r: Option<u64>)
        ensures
            8 <= old(self)@.rest().len() ==> r == Some(
                le_value(old(self)@.rest().take(8)) as u64,
            ) && final(self)@ == old(self)@.advanced(8),
            8 > old(self)@.rest().len() ==> r is None && final(self)@ == old(self)@,
    {
        match self.read_le(8) {
            Some(v) => {
                proof {
                    lemma_le_value_bound(old(self)@.rest().take(8));
                    lemma_byte_span_values();
                }
                Some(v as u64)
            },
            None => None,
        }
    }

    /// The next sixteen bytes as a little-endian value.
    pub fn read_u128(&mut self) -> (r: Option<u128>)
        ensures
            16 <= old(self)@.rest().len() ==> r == Some(
                le_value(old(self)@.rest().take(16)) as u128,
            ) && final(self)@ == old(self)@.advanced(16),
            16 > old(self)@.rest().len() ==> r is None && final(self)@ == old(self)@,
    {
        self.read_le(16)
    }
}

/// The consecutive 2-byte little-endian values of `bytes`; nothing when its
/// length is not a multiple of 2.
pub fn as_u16_slice(bytes: &[u8]) -> (r: Option<Vec<u16>>)
    ensures
        r is Some <==> bytes@.len() % 2 == 0,
        r matches Some(v) ==> nats_of_u16(v@) == le_elems(bytes@, 2),
{
    if bytes.len() % 2 != 0 {
        return None;
    }
    let mut reader = Reader::new(bytes);
    let mut out: Vec<u16> = Vec::new();
    proof {
        assert(bytes@.take(0) =~= Seq::<u8>::empty());
        assert(nats_of_u16(out@) =~= Seq::<nat>::empty());
    }
    while reader.remaining() > 0
        invariant
            reader@.input == bytes@,
            reader@.pos == 2 * out@.len(),
            reader@.pos <= bytes@.len(),
            bytes@.len() % 2 == 0,
            nats_of_u16(out@) == le_elems(bytes@.take(reader@.pos as int), 2),
        decreases bytes@.len() - reader@.pos,
    {
        let ghost p = reader@.pos as int;
        let ghost rest = reader@.rest();
        match reader.read_u16() {
            Some(v) => {
                proof {
                    let t = bytes@.take(p + 2);
                    assert(t.take(p) =~= bytes@.take(p));
                    assert(t.skip(p) =~= rest.take(2));
                    lemma_le_value_bound(rest.take(2));
                    lemma_byte_span_values();
                }
                out.push(v);

            },
            None => {
                return None;
            },
        }
    }
    proof {
        assert(bytes@.take(bytes@.len() as int) =~= bytes@);
    }
    Some(out)
}

/// The consecutive 4-byte little-endian values of `bytes`; nothing when its
/// length is not a multiple of 4.
pub fn as_u32_slice(bytes: &[u8]) -> (r: Option<Vec<u32>>)
    ensures
        r is Some <==> bytes@.len() % 4 == 0,
        r matches Some(v) ==> nats_of_u32(v@) == le_elems(bytes@, 4),
{
    if bytes.len() % 4 != 0 {
        return None;
    }
    let mut reader = Reader::new(bytes);
    let mut out: Vec<u32> = Vec::new();
    proof {
        assert(bytes@.take(0) =~= Seq::<u8>::empty());
        assert(nats_of_u32(out@) =~= Seq::<nat>::empty());
    }
    while reader.remaining() > 0
        invariant
            reader@.input == bytes@,
            reader@.pos == 4 * out@.len(),
            reader@.pos <= bytes@.len(),
            bytes@.len() % 4 == 0,
            nats_of_u32(out@) == le_elems(bytes@.take(reader@.pos as int), 4),
        decreases bytes@.len() - reader@.pos,
    {
        let ghost p = reader@.pos as int;
        let ghost rest = reader@.rest();
        match reader.read_u32() {
            Some(v) => {
                proof {
                    let t = bytes@.take(p + 4);
                    assert(t.take(p) =~= bytes@.take(p));
                    assert(t.skip(p) =~= rest.take(4));
                    lemma_le_value_bound(rest.take(4));
                    lemma_byte_span_values();
                }
                out.push(v);

            },
            None => {
                return None;
            },
        }
    }
    proof {
        assert(bytes@.take(bytes@.len() as int) =~= bytes@);
    }
    Some(out)
}

/// The consecutive 16-byte little-endian values of `bytes`; nothing when its
/// length is not a multiple of 16.
pub fn as_u128_slice(bytes: &[u8]) -> (r: Option<Vec<u128>>)
    ensures
        r is Some <==> bytes@.len() % 16 == 0,
        r matches Some(v) ==> nats_of_u128(v@) == le_elems(bytes@, 16),
{
    if bytes.len() % 16 != 0 {
        return None;
    }
    let mut reader = Reader::new(bytes);
    let mut out: Vec<u128> = Vec::new();
    proof {
        assert(bytes@.take(0) =~= Seq::<u8>::empty());
        assert(nats_of_u128(out@) =~= Seq::<nat>::empty());
    }
    while reader.remaining() > 0
        invariant
            reader@.input == bytes@,
            reader@.pos == 16 * out@.len(),
            reader@.pos <= bytes@.len(),
            bytes@.len() % 16 == 0,
            nats_of_u128(out@) == le_elems(bytes@.take(reader@.pos as int), 16),
        decreases bytes@.len() - reader@.pos,
    {
        let ghost p = reader@.pos as int;
        let ghost rest = reader@.rest();
        match reader.read_u128() {
            Some(v) => {
                proof {
                    let t = bytes@.take(p + 16);
                    assert(t.take(p) =~= bytes@.take(p));
                    assert(t.skip(p) =~= rest.take(16));
                    lemma_le_value_bound(rest.take(16));
                    lemma_byte_span_values();
                }
                out.push(v);

            },
            None => {
                return None;
            },
        }
    }
    proof {
        assert(bytes@.take(bytes@.len() as int) =~= bytes@);
    }
    Some(out)
}

} // verus!
